//! The text of a document as bytes, with a revision counter, and the
//! questions that the editor asks of it: lines and columns, positions as a
//! language server counts them, and the boundaries of words.

use vstd::prelude::*;
use vstd::string::{StringSliceAdditionalSpecFns, StrSliceExecFns};
use crate::edit::EditType;
use crate::nav::Position;

verus! {

pub const NEWLINE: u8 = 10u8;

/// The number of line breaks in the first `upto` bytes of `text`.
pub open spec fn newlines(text: Seq<u8>, upto: int) -> int
    decreases upto,
{
    if upto <= 0 || upto > text.len() {
        0
    } else {
        newlines(text, upto - 1) + if text[upto - 1] == NEWLINE {
            1int
        } else {
            0int
        }
    }
}

/// The offset of the first line break at or behind `from`, or the length of
/// the text when there is none.
pub open spec fn next_newline(text: Seq<u8>, from: int) -> int
    decreases text.len() - from,
{
    if from < 0 || from >= text.len() {
        text.len() as int
    } else if text[from] == NEWLINE {
        from
    } else {
        next_newline(text, from + 1)
    }
}

/// The offset at which the line that holds `offset` starts.
pub open spec fn line_begin(text: Seq<u8>, offset: int) -> int
    decreases offset,
{
    if offset <= 0 || offset > text.len() {
        0
    } else if text[offset - 1] == NEWLINE {
        offset
    } else {
        line_begin(text, offset - 1)
    }
}

/// The offset at which line `line` starts, counted from 0: just behind the
/// break that ends the line before. Past the last line it is the end of the text.
pub open spec fn line_start(text: Seq<u8>, line: nat) -> int
    decreases line,
{
    if line == 0 {
        0
    } else {
        let end = next_newline(text, line_start(text, (line - 1) as nat));
        if end < text.len() {
            end + 1
        } else {
            text.len() as int
        }
    }
}

/// A byte that continues a character of several bytes.
pub open spec fn is_continuation(b: u8) -> bool {
    128 <= b < 192
}

/// Space or tab.
pub open spec fn is_blank(b: u8) -> bool {
    b == 32 || b == 9
}

/// A byte of a word: neither a control character, a space nor punctuation.
/// The underscore and every byte of a character outside ASCII count as
/// parts of a word.
pub open spec fn is_word_byte(b: u8) -> bool {
    b > 32 && !(33 <= b <= 47) && !(58 <= b <= 64) && !(91 <= b <= 94) && b != 96 && !(123 <= b
        <= 126)
}

/// The start of the word that ends at `offset`: the least offset from which
/// up to `offset` every byte is a byte of a word.
pub open spec fn word_start(text: Seq<u8>, offset: int) -> int
    decreases offset,
{
    if offset <= 0 || offset > text.len() {
        if offset <= 0 {
            0
        } else {
            offset
        }
    } else if is_word_byte(text[offset - 1]) {
        word_start(text, offset - 1)
    } else {
        offset
    }
}

/// The end of the word that starts at `offset`: the first offset at or behind
/// it that is not followed by a byte of a word.
pub open spec fn word_end(text: Seq<u8>, offset: int) -> int
    decreases text.len() - offset,
{
    if offset < 0 || offset >= text.len() {
        offset
    } else if is_word_byte(text[offset]) {
        word_end(text, offset + 1)
    } else {
        offset
    }
}

/// The first offset at or behind `offset`, and not behind `limit`, that is not
/// followed by a blank.
pub open spec fn skip_blanks(text: Seq<u8>, offset: int, limit: int) -> int
    decreases limit - offset,
{
    if offset < 0 || offset >= limit || offset >= text.len() {
        offset
    } else if is_blank(text[offset]) {
        skip_blanks(text, offset + 1, limit)
    } else {
        offset
    }
}

/// The first offset at or behind `offset` at which a character starts, or
/// `limit` when it is reached first.
pub open spec fn next_boundary(text: Seq<u8>, offset: int, limit: int) -> int
    decreases limit - offset,
{
    if offset < 0 || offset >= limit || offset >= text.len() {
        offset
    } else if is_continuation(text[offset]) {
        next_boundary(text, offset + 1, limit)
    } else {
        offset
    }
}

/// The offset `count` characters behind `offset`, but not behind `limit`.
pub open spec fn forward_chars(text: Seq<u8>, offset: int, count: nat, limit: int) -> int
    decreases count,
{
    if count == 0 || offset >= limit || offset >= text.len() || offset < 0 {
        offset
    } else {
        forward_chars(text, next_boundary(text, offset + 1, limit), (count - 1) as nat, limit)
    }
}

/// The last offset before `offset`, and not before `limit`, at which a
/// character starts.
pub open spec fn prev_boundary(text: Seq<u8>, offset: int, limit: int) -> int
    decreases offset,
{
    if offset <= limit || offset <= 0 || offset > text.len() {
        offset
    } else if is_continuation(text[offset - 1]) && offset - 1 > limit {
        prev_boundary(text, offset - 1, limit)
    } else {
        offset - 1
    }
}

/// The number of UTF-16 code units that the character led by `b` takes: none
/// for a continuation byte, two for the lead byte of a four-byte character.
pub open spec fn utf16_units(b: u8) -> int {
    if is_continuation(b) {
        0
    } else if b >= 240 {
        2
    } else {
        1
    }
}

/// The number of UTF-16 code units of the bytes from `from` up to `to`.
pub open spec fn utf16_len(text: Seq<u8>, from: int, to: int) -> int
    decreases to - from,
{
    if to <= from || from < 0 || to > text.len() {
        0
    } else {
        utf16_len(text, from, to - 1) + utf16_units(text[to - 1])
    }
}

/// The offset that lies `units` UTF-16 code units behind `from` on a line that
/// ends at `end`: none when the line is shorter, or when the count ends in
/// the middle of a character.
pub open spec fn utf16_offset(text: Seq<u8>, from: int, end: int, units: int) -> Option<int>
    decreases end - from,
{
    if from < 0 || from > end || end > text.len() || units < 0 {
        None
    } else if from == end {
        if units == 0 {
            Some(from)
        } else {
            None
        }
    } else if units == 0 && !is_continuation(text[from]) {
        Some(from)
    } else if utf16_units(text[from]) > units {
        None
    } else {
        utf16_offset(text, from + 1, end, units - utf16_units(text[from]))
    }
}

/// The offset of a line and column: the column is counted in bytes from the
/// start of the line and stops at the end of the line.
pub open spec fn line_col_offset(text: Seq<u8>, line: nat, col: int) -> int {
    let start = line_start(text, line);
    let end = next_newline(text, start);
    if start + col < end {
        start + col
    } else {
        end
    }
}

/// The offset of a language server's position, where there is one.
pub open spec fn position_offset(text: Seq<u8>, pos: Position) -> Option<int> {
    if pos.line > newlines(text, text.len() as int) {
        None
    } else {
        let start = line_start(text, pos.line as nat);
        utf16_offset(text, start, next_newline(text, start), pos.character as int)
    }
}

/// The end of line `line`: in front of its line break. Where the caret cannot
/// stand behind the last character (`caret` false) and the line is not
/// empty, it is the start of the last character.
pub open spec fn line_end(text: Seq<u8>, line: nat, caret: bool) -> int {
    let start = line_start(text, line);
    let end = next_newline(text, start);
    if !caret && start < end {
        prev_boundary(text, end, start)
    } else {
        end
    }
}

/// A text with its revision.
#[derive(Debug)]
pub struct Buffer {
    pub text: Vec<u8>,
    /// Counts the edits made to the text.
    pub rev: u64,
    /// The revision that was last saved.
    pub saved_rev: u64,
    /// The kind of the edit made last; edits of one kind that follow each
    /// other are undone together.
    pub last_edit_type: EditType,
}

impl View for Buffer {
    type V = Seq<u8>;

    open spec fn view(&self) -> Seq<u8> {
        self.text@
    }
}

impl Clone for Buffer {
    fn clone(&self) -> (r: Buffer)
        ensures
            r@ == self@,
            r.rev == self.rev,
            r.saved_rev == self.saved_rev,
            r.last_edit_type == self.last_edit_type,
    {
        Buffer {
            text: self.text.clone(),
            rev: self.rev,
            saved_rev: self.saved_rev,
            last_edit_type: self.last_edit_type,
        }
    }
}

impl Buffer {
    /// A buffer that holds `text`, at revision 0 and saved.
    pub fn new(text: &str) -> (b: Buffer)
        ensures
            b@ == text.spec_bytes(),
            b.rev == 0,
            b.saved_rev == 0,
            b.last_edit_type == EditType::Other,
    {
        Buffer { text: text.as_bytes_vec(), rev: 0, saved_rev: 0, last_edit_type: EditType::Other }
    }

    pub fn len(&self) -> (r: usize)
        ensures
            r == self@.len(),
    {
        self.text.len()
    }

    pub fn is_empty(&self) -> (r: bool)
        ensures
            r == (self@.len() == 0),
    {
        self.text.len() == 0
    }

    pub fn rev(&self) -> (r: u64)
        ensures
            r == self.rev,
    {
        self.rev
    }

    /// Whether the text is as it was last saved.
    pub fn is_pristine(&self) -> (r: bool)
        ensures
            r == (self.rev == self.saved_rev),
    {
        self.rev == self.saved_rev
    }

    /// The bytes from `start` up to `end`, both cut down to the text.
    pub fn slice(&self, start: usize, end: usize) -> (r: Vec<u8>)
        ensures
            r@ == self@.subrange(
                vstd::math::min(start as int, vstd::math::min(end as int, self@.len() as int)),
                vstd::math::min(end as int, self@.len() as int),
            ),
    {
        let n = self.text.len();
        let e = if end < n {
            end
        } else {
            n
        };
        let s = if start < e {
            start
        } else {
            e
        };
        let mut out: Vec<u8> = Vec::new();
        let mut i: usize = s;
        while i < e
            invariant
                s <= i <= e <= self.text@.len(),
                out@ == self.text@.subrange(s as int, i as int),
            decreases e - i,
        {
            out.push(self.text[i]);
            assert(self.text@.subrange(s as int, i + 1) =~= self.text@.subrange(
                s as int,
                i as int,
            ).push(self.text@[i as int]));
            i += 1;
        }
        out
    }

    /// The number of the last line.
    pub fn last_line(&self) -> (r: usize)
        ensures
            r == newlines(self@, self@.len() as int),
    {
        self.line_of_offset(self.text.len())
    }

    /// The number of the line that holds `offset`; an offset behind the text
    /// counts as its end.
    pub fn line_of_offset(&self, offset: usize) -> (r: usize)
        ensures
            r == newlines(self@, vstd::math::min(offset as int, self@.len() as int)),
            r <= self@.len(),
    {
        let n = self.text.len();
        let end = if offset < n {
            offset
        } else {
            n
        };
        let mut count: usize = 0;
        let mut i: usize = 0;
        while i < end
            invariant
                i <= end <= self.text@.len(),
                count == newlines(self.text@, i as int),
                count <= i,
            decreases end - i,
        {
            if self.text[i] == NEWLINE {
                count += 1;
            }
            i += 1;
        }
        count
    }

    /// The offset of the first line break at or behind `from`, or the length
    /// of the text.
    pub fn next_line_break(&self, from: usize) -> (r: usize)
        ensures
            r == next_newline(self@, from as int),
            r <= self@.len(),
            from <= self@.len() ==> from <= r,
    {
        let n = self.text.len();
        let mut i: usize = from;
        while i < n
            invariant
                n == self.text@.len(),
                from <= i,
                next_newline(self.text@, from as int) == next_newline(self.text@, i as int),
            decreases n - i,
        {
            if self.text[i] == NEWLINE {
                return i;
            }
            i += 1;
        }
        n
    }

    /// The offset at which line `line` starts; past the last line, the end of
    /// the text.
    pub fn offset_of_line(&self, line: usize) -> (r: usize)
        ensures
            r == line_start(self@, line as nat),
            r <= self@.len(),
    {
        let n = self.text.len();
        let mut pos: usize = 0;
        let mut l: usize = 0;
        while l < line
            invariant
                l <= line,
                n == self.text@.len(),
                pos <= n,
                pos == line_start(self.text@, l as nat),
            decreases line - l,
        {
            let end = self.next_line_break(pos);
            if end >= n {
                proof {
                    lemma_line_start_at_end(self.text@, (l + 1) as nat, line as nat);
                }
                return n;
            }
            pos = end + 1;
            l += 1;
        }
        pos
    }

    /// The line that holds `offset` and the distance in bytes of `offset`
    /// from the start of that line.
    pub fn offset_to_line_col(&self, offset: usize) -> (r: (usize, usize))
        ensures
            ({
                let o = vstd::math::min(offset as int, self@.len() as int);
                r.0 == newlines(self@, o) && r.1 == o - line_begin(self@, o) && r.1 <= o
            }),
    {
        let n = self.text.len();
        let end = if offset < n {
            offset
        } else {
            n
        };
        let mut count: usize = 0;
        let mut begin: usize = 0;
        let mut i: usize = 0;
        while i < end
            invariant
                i <= end <= self.text@.len(),
                count == newlines(self.text@, i as int),
                begin == line_begin(self.text@, i as int),
                count <= i,
                begin <= i,
            decreases end - i,
        {
            if self.text[i] == NEWLINE {
                count += 1;
                begin = i + 1;
            }
            i += 1;
        }
        (count, end - begin)
    }

    /// The offset of a line and a column counted in bytes; a column behind
    /// the end of the line counts as the end of the line.
    pub fn offset_of_line_col(&self, line: usize, col: usize) -> (r: usize)
        ensures
            r == line_col_offset(self@, line as nat, col as int),
            r <= self@.len(),
    {
        let start = self.offset_of_line(line);
        let end = self.next_line_break(start);
        if col < end - start {
            start + col
        } else {
            end
        }
    }

    /// The last offset before `offset`, and not before `limit`, at which a
    /// character starts.
    pub fn prev_char_offset(&self, offset: usize, limit: usize) -> (r: usize)
        ensures
            r == prev_boundary(self@, offset as int, limit as int),
            r <= offset,
            limit <= offset ==> limit <= r,
    {
        let n = self.text.len();
        if offset <= limit || offset > n {
            return offset;
        }
        let mut i: usize = offset;
        while i - 1 > limit && self.text[i - 1] >= 128 && self.text[i - 1] < 192
            invariant
                limit < i <= offset <= self.text@.len(),
                prev_boundary(self.text@, offset as int, limit as int) == prev_boundary(
                    self.text@,
                    i as int,
                    limit as int,
                ),
            decreases i,
        {
            i -= 1;
        }
        i - 1
    }

    /// The offset of the end of line `line`, in front of its line break; with
    /// `caret` false, on a line that is not empty, the start of its last
    /// character.
    pub fn line_end_offset(&self, line: usize, caret: bool) -> (r: usize)
        ensures
            r == line_end(self@, line as nat, caret),
            line_start(self@, line as nat) <= r <= self@.len(),
    {
        let start = self.offset_of_line(line);
        let end = self.next_line_break(start);
        if !caret && start < end {
            self.prev_char_offset(end, start)
        } else {
            end
        }
    }

    /// The greatest column of line `line` at which the caret can stand.
    pub fn line_end_col(&self, line: usize, caret: bool) -> (r: usize)
        ensures
            r == line_end(self@, line as nat, caret) - line_start(self@, line as nat),
    {
        let start = self.offset_of_line(line);
        let end = self.line_end_offset(line, caret);
        end - start
    }

    /// The end of the line that holds `offset`.
    pub fn offset_line_end(&self, offset: usize, caret: bool) -> (r: usize)
        ensures
            r == line_end(
                self@,
                newlines(self@, vstd::math::min(offset as int, self@.len() as int)) as nat,
                caret,
            ),
            r <= self@.len(),
    {
        let line = self.line_of_offset(offset);
        self.line_end_offset(line, caret)
    }

    /// The bytes of line `line`, its line break included.
    pub fn line_content(&self, line: usize) -> (r: Vec<u8>)
        ensures
            line < usize::MAX ==> r@ == self@.subrange(
                line_start(self@, line as nat),
                vstd::math::max(line_start(self@, line as nat), line_start(self@, (line + 1) as nat)),
            ),
            line == usize::MAX ==> r@.len() == 0,
    {
        if line == usize::MAX {
            return Vec::new();
        }
        let start = self.offset_of_line(line);
        let end = self.offset_of_line(line + 1);
        proof {
            lemma_line_start_step(self@, line as nat);
        }
        self.slice(start, end)
    }

    /// The offset of the first character of line `line` that is neither a
    /// space nor a tab, or the end of the line's content.
    pub fn first_non_blank_character_on_line(&self, line: usize) -> (r: usize)
        ensures
            r == skip_blanks(
                self@,
                line_start(self@, line as nat),
                next_newline(self@, line_start(self@, line as nat)),
            ),
            r <= self@.len(),
    {
        let start = self.offset_of_line(line);
        let end = self.next_line_break(start);
        let mut i: usize = start;
        while i < end && (self.text[i] == 32 || self.text[i] == 9)
            invariant
                start <= i <= end <= self.text@.len(),
                skip_blanks(self.text@, start as int, end as int) == skip_blanks(
                    self.text@,
                    i as int,
                    end as int,
                ),
            decreases end - i,
        {
            i += 1;
        }
        i
    }

    /// The start of the word in front of `offset`.
    pub fn prev_code_boundary(&self, offset: usize) -> (r: usize)
        ensures
            r == word_start(self@, offset as int),
            r <= offset,
    {
        let n = self.text.len();
        if offset > n {
            return offset;
        }
        let mut i: usize = offset;
        while i > 0 && byte_is_word(self.text[i - 1])
            invariant
                i <= offset <= self.text@.len(),
                word_start(self.text@, offset as int) == word_start(self.text@, i as int),
            decreases i,
        {
            i -= 1;
        }
        i
    }

    /// The end of the word behind `offset`.
    pub fn next_code_boundary(&self, offset: usize) -> (r: usize)
        ensures
            r == word_end(self@, offset as int),
            offset <= r,
            offset <= self@.len() ==> r <= self@.len(),
    {
        let n = self.text.len();
        let mut i: usize = offset;
        while i < n && byte_is_word(self.text[i])
            invariant
                offset <= i,
                n == self.text@.len(),
                offset <= n ==> i <= n,
                word_end(self.text@, offset as int) == word_end(self.text@, i as int),
            decreases n - i,
        {
            i += 1;
        }
        i
    }

    /// The word around `offset`: from the start of the word in front of it to
    /// the end of the word behind it.
    pub fn select_word(&self, offset: usize) -> (r: (usize, usize))
        ensures
            r.0 == word_start(self@, offset as int),
            r.1 == word_end(self@, offset as int),
            r.0 <= offset <= r.1,
    {
        (self.prev_code_boundary(offset), self.next_code_boundary(offset))
    }

    /// The offset `count` characters behind `offset`, but not behind `limit`.
    pub fn next_grapheme_offset(&self, offset: usize, count: usize, limit: usize) -> (r: usize)
        ensures
            r == forward_chars(self@, offset as int, count as nat, limit as int),
            offset <= r,
            offset <= limit ==> r <= limit,
    {
        let n = self.text.len();
        let mut pos: usize = offset;
        let mut left: usize = count;
        while left > 0 && pos < limit && pos < n
            invariant
                n == self.text@.len(),
                offset <= pos,
                offset <= limit ==> pos <= limit,
                forward_chars(self.text@, offset as int, count as nat, limit as int)
                    == forward_chars(self.text@, pos as int, left as nat, limit as int),
            decreases left,
        {
            let mut i: usize = pos + 1;
            while i < limit && i < n && self.text[i] >= 128 && self.text[i] < 192
                invariant
                    n == self.text@.len(),
                    pos < i,
                    pos < limit,
                    pos < n,
                    i <= limit,
                    next_boundary(self.text@, pos + 1, limit as int) == next_boundary(
                        self.text@,
                        i as int,
                        limit as int,
                    ),
                decreases n - i,
            {
                i += 1;
            }
            pos = i;
            left -= 1;
        }
        pos
    }

    /// The offset of a language server's position: none when the line is
    /// not in the text, the line is shorter than the position's character,
    /// or the character count ends in the middle of a character.
    pub fn offset_of_position(&self, pos: &Position) -> (r: Option<usize>)
        ensures
            match r {
                Some(o) => position_offset(self@, *pos) == Some(o as int) && o <= self@.len(),
                None => position_offset(self@, *pos) is None,
            },
    {
        let n = self.text.len();
        let last = self.last_line();
        if pos.line as usize > last {
            return None;
        }
        let start = self.offset_of_line(pos.line as usize);
        let end = self.next_line_break(start);
        let mut i: usize = start;
        let mut units: u32 = pos.character;
        while i < end
            invariant
                start <= i <= end <= self.text@.len(),
                position_offset(self.text@, *pos) == utf16_offset(
                    self.text@,
                    i as int,
                    end as int,
                    units as int,
                ),
            decreases end - i,
        {
            let b = self.text[i];
            let continuation = b >= 128 && b < 192;
            if units == 0 && !continuation {
                return Some(i);
            }
            let u: u32 = if continuation {
                0
            } else if b >= 240 {
                2
            } else {
                1
            };
            if u > units {
                return None;
            }
            units = units - u;
            i += 1;
        }
        if units == 0 {
            Some(i)
        } else {
            None
        }
    }

    /// The position of `offset` as a language server counts it: none when
    /// `offset` lies behind the text or a count does not fit the position.
    pub fn offset_to_position(&self, offset: usize) -> (r: Option<Position>)
        ensures
            ({
                let line = newlines(self@, offset as int);
                let units = utf16_len(self@, line_begin(self@, offset as int), offset as int);
                match r {
                    Some(p) => offset <= self@.len() && p.line == line && p.character == units,
                    None => offset > self@.len() || line > u32::MAX || units > u32::MAX,
                }
            }),
    {
        let n = self.text.len();
        if offset > n {
            return None;
        }
        let (line, col) = self.offset_to_line_col(offset);
        let begin = offset - col;
        let mut units: u64 = 0;
        let mut i: usize = begin;
        while i < offset
            invariant
                begin <= i <= offset <= self.text@.len(),
                begin == line_begin(self.text@, offset as int),
                units == utf16_len(self.text@, begin as int, i as int),
                units <= u32::MAX,
            decreases offset - i,
        {
            let b = self.text[i];
            if b >= 128 && b < 192 {
            } else if b >= 240 {
                units += 2;
            } else {
                units += 1;
            }
            if units > u32::MAX as u64 {
                proof {
                    lemma_utf16_len_monotonic(self.text@, begin as int, i + 1, offset as int);
                }
                return None;
            }
            i += 1;
        }
        if line > u32::MAX as usize {
            return None;
        }
        Some(Position { line: line as u32, character: units as u32 })
    }
}

/// Whether `b` is a byte of a word.
pub fn byte_is_word(b: u8) -> (r: bool)
    ensures
        r == is_word_byte(b),
{
    b > 32 && !(33 <= b && b <= 47) && !(58 <= b && b <= 64) && !(91 <= b && b <= 94) && b != 96
        && !(123 <= b && b <= 126)
}

/// Once a line starts at the end of the text, every later line does.
pub proof fn lemma_line_start_at_end(text: Seq<u8>, from: nat, line: nat)
    requires
        from <= line,
        line_start(text, from) == text.len(),
    ensures
        line_start(text, line) == text.len(),
    decreases line - from,
{
    if from < line {
        assert(next_newline(text, text.len() as int) == text.len());
        assert(line_start(text, from + 1) == text.len());
        lemma_line_start_at_end(text, from + 1, line);
    }
}

/// The start of a line lies in the text.
pub proof fn lemma_line_start_bounds(text: Seq<u8>, line: nat)
    ensures
        0 <= line_start(text, line) <= text.len(),
    decreases line,
{
    if line > 0 {
        lemma_line_start_bounds(text, (line - 1) as nat);
        lemma_next_newline_bounds(text, line_start(text, (line - 1) as nat));
    }
}

/// The next line break lies at or behind the offset it is sought from, in the text.
pub proof fn lemma_next_newline_bounds(text: Seq<u8>, from: int)
    requires
        0 <= from <= text.len(),
    ensures
        from <= next_newline(text, from) <= text.len(),
    decreases text.len() - from,
{
    if from < text.len() && text[from] != NEWLINE {
        lemma_next_newline_bounds(text, from + 1);
    }
}

/// A line does not start before the line in front of it.
pub proof fn lemma_line_start_step(text: Seq<u8>, line: nat)
    ensures
        line_start(text, line) <= line_start(text, line + 1),
{
    lemma_line_start_bounds(text, line);
    lemma_next_newline_bounds(text, line_start(text, line));
}

/// A longer stretch of text has at least as many UTF-16 code units.
pub proof fn lemma_utf16_len_monotonic(text: Seq<u8>, from: int, mid: int, to: int)
    requires
        0 <= from <= mid <= to <= text.len(),
    ensures
        0 <= utf16_len(text, from, mid) <= utf16_len(text, from, to),
    decreases to - from,
{
    if mid < to {
        lemma_utf16_len_monotonic(text, from, mid, to - 1);
    } else if from < mid {
        lemma_utf16_len_monotonic(text, from, mid - 1, mid - 1);
    }
}

} // verus!
