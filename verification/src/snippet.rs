//! Snippets: text with tab stops. A tab stop is written `$1` or `${1}`, a
//! placeholder with a default text `${1:text}`; placeholders may hold others.
//! A backslash in front of `$`, or of `}` inside a placeholder, takes the
//! sign as text.

use vstd::prelude::*;
use vstd::string::{StrSliceExecFns, StringExecFns};
use vstd::utf8::encode_utf8;
use crate::text::{byte_len, lemma_utf8_push, utf8_len};

verus! {

/// A tab stop: its number, and the offsets in bytes at which it starts and ends.
pub type Tab = (usize, (usize, usize));

/// What has been read of a snippet: the text, the tab stops in the order in
/// which they start, and the placeholders that are still open, outermost
/// first, each by its index among the tab stops.
pub struct SnippetState {
    pub text: Seq<char>,
    pub tabs: Seq<Tab>,
    pub open: Seq<usize>,
}

/// What a `$` starts.
#[derive(Clone, Copy, PartialEq, Eq, Structural)]
pub enum MarkerKind {
    /// A tab stop.
    Stop,
    /// A placeholder.
    Open,
    /// Nothing that a snippet knows.
    Unknown,
}

/// What stands at a `$`: its kind, its number, and the index behind it; for
/// a placeholder, the index behind its colon.
pub struct Marker {
    pub kind: MarkerKind,
    pub number: usize,
    pub end: int,
}

pub open spec fn is_digit(c: char) -> bool {
    '0' <= c <= '9'
}

/// The first index at or behind `pos` that holds no digit.
pub open spec fn digits_end(s: Seq<char>, pos: int) -> int
    decreases s.len() - pos,
{
    if pos < 0 || pos >= s.len() || !is_digit(s[pos]) {
        pos
    } else {
        digits_end(s, pos + 1)
    }
}

/// The number that the digits from `from` up to `to` write, or the greatest
/// number of the machine where they write a greater one.
pub open spec fn digits_value(s: Seq<char>, from: int, to: int) -> usize
    decreases to - from,
{
    if to <= from || from < 0 || to > s.len() {
        0
    } else {
        let v = digits_value(s, from, to - 1) * 10 + (s[to - 1] as u32 - 48);
        if v > usize::MAX {
            usize::MAX
        } else {
            v as usize
        }
    }
}

/// What the `$` at `pos` starts.
pub open spec fn marker_at(s: Seq<char>, pos: int) -> Marker {
    if pos + 1 < s.len() && is_digit(s[pos + 1]) {
        let e = digits_end(s, pos + 1);
        Marker { kind: MarkerKind::Stop, number: digits_value(s, pos + 1, e), end: e }
    } else if pos + 2 < s.len() && s[pos + 1] == '{' && is_digit(s[pos + 2]) {
        let e = digits_end(s, pos + 2);
        if e < s.len() && s[e] == '}' {
            Marker { kind: MarkerKind::Stop, number: digits_value(s, pos + 2, e), end: e + 1 }
        } else if e < s.len() && s[e] == ':' {
            Marker { kind: MarkerKind::Open, number: digits_value(s, pos + 2, e), end: e + 1 }
        } else {
            Marker { kind: MarkerKind::Unknown, number: 0, end: pos }
        }
    } else {
        Marker { kind: MarkerKind::Unknown, number: 0, end: pos }
    }
}

/// The digits at an index end at or behind it.
pub proof fn lemma_digits_end(s: Seq<char>, pos: int)
    requires
        0 <= pos <= s.len(),
    ensures
        pos <= digits_end(s, pos) <= s.len(),
    decreases s.len() - pos,
{
    if pos < s.len() && is_digit(s[pos]) {
        lemma_digits_end(s, pos + 1);
    }
}

impl SnippetState {
    pub open spec fn start() -> SnippetState {
        SnippetState { text: Seq::empty(), tabs: Seq::empty(), open: Seq::empty() }
    }

    /// Every open placeholder is one of the tab stops.
    pub open spec fn wf(self) -> bool {
        forall|i: int| 0 <= i < self.open.len() ==> (#[trigger] self.open[i]) < self.tabs.len()
    }

    /// The length of the text in bytes.
    pub open spec fn offset(self) -> usize {
        utf8_len(self.text)
    }

    pub open spec fn emit(self, c: char) -> SnippetState {
        SnippetState { text: self.text.push(c), ..self }
    }

    /// A tab stop without text, at the end of the text.
    pub open spec fn stop(self, n: usize) -> SnippetState {
        SnippetState { tabs: self.tabs.push((n, (self.offset(), self.offset()))), ..self }
    }

    /// A placeholder that starts at the end of the text.
    pub open spec fn open_placeholder(self, n: usize) -> SnippetState {
        SnippetState {
            tabs: self.tabs.push((n, (self.offset(), self.offset()))),
            open: self.open.push(self.tabs.len() as usize),
            ..self
        }
    }

    /// The innermost open placeholder ends at the end of the text.
    pub open spec fn close(self) -> SnippetState {
        if self.open.len() == 0 || self.open.last() >= self.tabs.len() {
            self
        } else {
            let k = self.open.last() as int;
            SnippetState {
                tabs: self.tabs.update(k, (self.tabs[k].0, (self.tabs[k].1.0, self.offset()))),
                open: self.open.drop_last(),
                ..self
            }
        }
    }

    /// Every open placeholder ends at the end of the text.
    pub open spec fn close_all(self) -> SnippetState
        decreases self.open.len(),
    {
        if self.open.len() == 0 || self.open.last() >= self.tabs.len() {
            self
        } else {
            self.close().close_all()
        }
    }
}

/// What is read of `s` from `pos` on, after `st` was read. Reading ends at
/// the end of `s`, at a `$` that starts nothing known, and at a backslash
/// that is the last sign.
pub open spec fn parse_from(s: Seq<char>, pos: int, st: SnippetState) -> SnippetState
    decreases s.len() - pos,
{
    if pos < 0 || pos >= s.len() {
        st
    } else {
        let c = s[pos];
        let nested = st.open.len() > 0;
        if c == '\\' {
            if pos + 1 >= s.len() {
                st
            } else if s[pos + 1] == '$' || (nested && s[pos + 1] == '}') {
                parse_from(s, pos + 2, st.emit(s[pos + 1]))
            } else {
                parse_from(s, pos + 2, st.emit('\\').emit(s[pos + 1]))
            }
        } else if c == '$' {
            let m = marker_at(s, pos);
            if m.end <= pos || m.end > s.len() || m.kind == MarkerKind::Unknown {
                st
            } else if m.kind == MarkerKind::Stop {
                parse_from(s, m.end, st.stop(m.number))
            } else {
                parse_from(s, m.end, st.open_placeholder(m.number))
            }
        } else if c == '}' && nested {
            parse_from(s, pos + 1, st.close())
        } else {
            parse_from(s, pos + 1, st.emit(c))
        }
    }
}

/// The snippet that `s` writes: what is read of it, with the placeholders
/// that it leaves open ended at the end of the text.
pub open spec fn parsed(s: Seq<char>) -> SnippetState {
    parse_from(s, 0, SnippetState::start()).close_all()
}

/// `a` need not come behind `b` in the order of tab stops: by number, with
/// the stop 0, the last one, behind all others.
pub open spec fn tab_not_behind(a: Tab, b: Tab) -> bool {
    if a.0 == 0 {
        b.0 == 0
    } else {
        b.0 == 0 || a.0 <= b.0
    }
}

/// The index at which `x` goes into `sorted`: behind every tab stop from
/// `from` on that need not come behind it.
pub open spec fn tab_place(sorted: Seq<Tab>, x: Tab, from: int) -> int
    decreases sorted.len() - from,
{
    if from < 0 || from >= sorted.len() {
        sorted.len() as int
    } else if !tab_not_behind(sorted[from], x) {
        from
    } else {
        tab_place(sorted, x, from + 1)
    }
}

/// Every tab stop lies between `low` and `high` and does not run
/// backwards.
pub open spec fn stops_between(tabs: Seq<Tab>, low: int, high: int) -> bool {
    forall|i: int| 0 <= i < tabs.len() ==> low <= (#[trigger] tabs[i]).1.0 <= tabs[i].1.1 <= high
}

/// `a + b`, or the machine's greatest number where the sum is greater.
pub open spec fn capped_sum(a: usize, b: usize) -> usize {
    if a + b > usize::MAX {
        usize::MAX
    } else {
        (a + b) as usize
    }
}

/// The first `n` tab stops, moved on by `pos` and sorted by number, the
/// stop 0 last; stops of one number keep their order.
pub open spec fn sorted_tabs(tabs: Seq<Tab>, pos: usize, n: int) -> Seq<Tab>
    decreases n,
{
    if n <= 0 || n > tabs.len() {
        Seq::empty()
    } else {
        let sorted = sorted_tabs(tabs, pos, n - 1);
        let t = tabs[n - 1];
        let x = (t.0, (capped_sum(t.1.0, pos), capped_sum(t.1.1, pos)));
        sorted.insert(tab_place(sorted, x, 0), x)
    }
}

/// A snippet that was read: its text, and its tab stops in the order in
/// which they start.
#[derive(Debug)]
pub struct Snippet {
    pub text: String,
    pub tabs: Vec<Tab>,
}

struct Reader {
    text: String,
    tabs: Vec<Tab>,
    open: Vec<usize>,
}

impl View for Reader {
    type V = SnippetState;

    closed spec fn view(&self) -> SnippetState {
        SnippetState { text: self.text@, tabs: self.tabs@, open: self.open@ }
    }
}

impl Reader {
    /// Every tab stop lies in the text read so far.
    closed spec fn bounded(&self) -> bool {
        stops_between(self.tabs@, 0, encode_utf8(self.text@).len() as int)
    }

    fn emit(&mut self, s: &str, i: usize)
        requires
            i < s@.len() <= usize::MAX,
            old(self).bounded(),
        ensures
            final(self)@ == old(self)@.emit(s@[i as int]),
            final(self).bounded(),
    {
        self.text.append(s.substring_char(i, i + 1));
        assert(self.text@ =~= old(self).text@.push(s@[i as int]));
        proof {
            lemma_utf8_push(old(self).text@, s@[i as int]);
        }
    }

    fn stop(&mut self, n: usize)
        requires
            old(self).bounded(),
        ensures
            final(self)@ == old(self)@.stop(n),
            final(self).bounded(),
    {
        let off = byte_len(self.text.as_str());
        self.tabs.push((n, (off, off)));
    }

    fn open_placeholder(&mut self, n: usize)
        requires
            old(self).bounded(),
        ensures
            final(self)@ == old(self)@.open_placeholder(n),
            final(self).bounded(),
    {
        let off = byte_len(self.text.as_str());
        self.open.push(self.tabs.len());
        self.tabs.push((n, (off, off)));
    }

    fn close(&mut self)
        requires
            old(self).bounded(),
        ensures
            final(self)@ == old(self)@.close(),
            final(self).bounded(),
    {
        if self.open.len() == 0 {
            return ;
        }
        let k = self.open[self.open.len() - 1];
        if k >= self.tabs.len() {
            return ;
        }
        let off = byte_len(self.text.as_str());
        let t = self.tabs[k];
        self.tabs[k] = (t.0, (t.1.0, off));
        self.open.pop();
    }
}

fn char_is_digit(c: char) -> (r: bool)
    ensures
        r == is_digit(c),
{
    '0' <= c && c <= '9'
}

/// The end of the digits at `pos` and the number they write.
fn read_digits(s: &str, n: usize, pos: usize) -> (r: (usize, usize))
    requires
        n == s@.len(),
        pos <= n,
    ensures
        r.0 == digits_end(s@, pos as int),
        r.1 == digits_value(s@, pos as int, r.0 as int),
        pos <= r.0 <= n,
{
    let mut i: usize = pos;
    let mut v: usize = 0;
    while i < n && char_is_digit(s.get_char(i))
        invariant
            pos <= i <= n,
            n == s@.len(),
            digits_end(s@, pos as int) == digits_end(s@, i as int),
            v == digits_value(s@, pos as int, i as int),
        decreases n - i,
    {
        let d = (s.get_char(i) as u32 - 48) as usize;
        v = if v > (usize::MAX - d) / 10 {
            usize::MAX
        } else {
            v * 10 + d
        };
        i += 1;
    }
    (i, v)
}

/// What the `$` at `pos` starts: none where it is nothing known, else
/// whether it opens a placeholder, its number, and the index behind it.
fn read_marker(s: &str, n: usize, pos: usize) -> (r: Option<(bool, usize, usize)>)
    requires
        n == s@.len(),
        pos < n,
    ensures
        match r {
            Some((opens, number, end)) => pos < end <= n && marker_at(s@, pos as int) == (Marker {
                kind: if opens {
                    MarkerKind::Open
                } else {
                    MarkerKind::Stop
                },
                number,
                end: end as int,
            }),
            None => marker_at(s@, pos as int).kind == MarkerKind::Unknown,
        },
{
    if pos + 1 < n && char_is_digit(s.get_char(pos + 1)) {
        let (e, v) = read_digits(s, n, pos + 1);
        Some((false, v, e))
    } else if pos + 1 < n && pos + 2 < n && s.get_char(pos + 1) == '{' && char_is_digit(
        s.get_char(pos + 2),
    ) {
        let (e, v) = read_digits(s, n, pos + 2);
        if e < n && s.get_char(e) == '}' {
            Some((false, v, e + 1))
        } else if e < n && s.get_char(e) == ':' {
            Some((true, v, e + 1))
        } else {
            None
        }
    } else {
        None
    }
}

impl Snippet {
    /// Every tab stop lies in the text of the snippet.
    pub open spec fn wf(&self) -> bool {
        &&& encode_utf8(self.text@).len() <= usize::MAX
        &&& stops_between(self.tabs@, 0, utf8_len(self.text@) as int)
    }

    /// Reads a snippet.
    pub fn from_str(s: &str) -> (r: Snippet)
        ensures
            r.text@ == parsed(s@).text,
            r.tabs@ == parsed(s@).tabs,
            r.wf(),
    {
        let n = s.unicode_len();
        let mut reader = Reader { text: String::new(), tabs: Vec::new(), open: Vec::new() };
        assert(reader@ == SnippetState::start());
        assert(reader.bounded());
        let mut pos: usize = 0;
        let mut done = false;
        while pos < n && !done
            invariant
                pos <= n,
                n == s@.len(),
                !done ==> parse_from(s@, 0, SnippetState::start()) == parse_from(
                    s@,
                    pos as int,
                    reader@,
                ),
                done ==> parse_from(s@, 0, SnippetState::start()) == reader@,
                reader.bounded(),
            decreases n - pos + if done { 0int } else { 1int },
        {
            let c = s.get_char(pos);
            let nested = reader.open.len() > 0;
            if c == '\\' {
                if pos + 1 >= n {
                    done = true;
                } else {
                    let next = s.get_char(pos + 1);
                    if next == '$' || (nested && next == '}') {
                        reader.emit(s, pos + 1);
                    } else {
                        reader.emit(s, pos);
                        reader.emit(s, pos + 1);
                    }
                    pos += 2;
                }
            } else if c == '$' {
                match read_marker(s, n, pos) {
                    Some((opens, number, end)) => {
                        if opens {
                            reader.open_placeholder(number);
                        } else {
                            reader.stop(number);
                        }
                        pos = end;
                    },
                    None => {
                        done = true;
                    },
                }
            } else if c == '}' && nested {
                reader.close();
                pos += 1;
            } else {
                reader.emit(s, pos);
                pos += 1;
            }
        }
        while reader.open.len() > 0 && reader.open[reader.open.len() - 1] < reader.tabs.len()
            invariant
                parsed(s@) == reader@.close_all(),
                reader.bounded(),
            decreases reader.open@.len(),
        {
            reader.close();
        }
        // The text is held in memory, so its bytes can be counted.
        let _ = byte_len(reader.text.as_str());
        Snippet { text: reader.text, tabs: reader.tabs }
    }

    /// The text of the snippet, its markers taken out.
    pub fn text(&self) -> (r: String)
        ensures
            r == self.text,
    {
        self.text.clone()
    }

    /// The tab stops of the snippet put in at offset `pos`, in the order in
    /// which the tab key visits them.
    pub fn tabs(&self, pos: usize) -> (r: Vec<Tab>)
        ensures
            r@ == sorted_tabs(self.tabs@, pos, self.tabs@.len() as int),
            r@.len() == self.tabs@.len(),
            self.wf() && pos + utf8_len(self.text@) <= usize::MAX ==> stops_between(
                r@,
                pos as int,
                pos + utf8_len(self.text@),
            ),
    {
        let mut out: Vec<Tab> = Vec::new();
        let mut i: usize = 0;
        while i < self.tabs.len()
            invariant
                i <= self.tabs@.len(),
                out@ == sorted_tabs(self.tabs@, pos, i as int),
                out@.len() == i,
                self.wf() && pos + utf8_len(self.text@) <= usize::MAX ==> stops_between(
                    out@,
                    pos as int,
                    pos + utf8_len(self.text@),
                ),
            decreases self.tabs@.len() - i,
        {
            let t = self.tabs[i];
            let x = (t.0, (t.1.0.saturating_add(pos), t.1.1.saturating_add(pos)));
            proof {
                if self.wf() && pos + utf8_len(self.text@) <= usize::MAX {
                    lemma_insert_between(
                        out@,
                        tab_place(out@, x, 0),
                        x,
                        pos as int,
                        pos + utf8_len(self.text@),
                    );
                }
            }
            let mut k: usize = 0;
            while k < out.len() && tab_goes_first(out[k], x)
                invariant
                    k <= out@.len(),
                    tab_place(out@, x, 0) == tab_place(out@, x, k as int),
                decreases out@.len() - k,
            {
                k += 1;
            }
            out.insert(k, x);
            i += 1;
        }
        out
    }
}

/// Tab stops that lie between two offsets still do when one more that
/// does is put in among them.
proof fn lemma_insert_between(tabs: Seq<Tab>, k: int, x: Tab, low: int, high: int)
    requires
        stops_between(tabs, low, high),
        low <= x.1.0 <= x.1.1 <= high,
    ensures
        0 <= k <= tabs.len() ==> stops_between(tabs.insert(k, x), low, high),
{
    if 0 <= k <= tabs.len() {
        let put = tabs.insert(k, x);
        assert forall|i: int| 0 <= i < put.len() implies low <= (#[trigger] put[i]).1.0 <= put[i].1.1
            <= high by {
            if i < k {
                assert(put[i] == tabs[i]);
            } else if i > k {
                assert(put[i] == tabs[i - 1]);
            }
        }
    }
}

fn tab_goes_first(a: Tab, b: Tab) -> (r: bool)
    ensures
        r == tab_not_behind(a, b),
{
    if a.0 == 0 {
        b.0 == 0
    } else {
        b.0 == 0 || a.0 <= b.0
    }
}

} // verus!
