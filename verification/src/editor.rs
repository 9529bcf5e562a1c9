//! The composer line editor: buffer plus a cursor counted in characters,
//! prompt history state, and the word and kill motions the keymap
//! dispatches. Pure string surgery with no terminal knowledge.
//!
//! A cursor past the end of the buffer behaves as if it sat at the end
//! for every edit; only the cursor field itself keeps the larger value.

use vstd::prelude::*;
use vstd::string::*;
use crate::text::{chars_of, is_whitespace, is_ws, splice, splice_spec, string_of};

verus! {

/// The cursor clamped to the buffer: the character position edits act on.
pub open spec fn clamp_pos(cursor: usize, len: nat) -> int {
    if cursor < len { cursor as int } else { len as int }
}

/// Start of the word left of position `i`: skip whitespace, then the word.
pub open spec fn skip_ws_back(s: Seq<char>, i: int) -> int
    decreases i,
{
    if i > 0 && i <= s.len() && is_ws(s[i - 1]) { skip_ws_back(s, i - 1) } else { i }
}

pub open spec fn skip_word_back(s: Seq<char>, i: int) -> int
    decreases i,
{
    if i > 0 && i <= s.len() && !is_ws(s[i - 1]) { skip_word_back(s, i - 1) } else { i }
}

pub open spec fn skip_ws_fwd(s: Seq<char>, i: int) -> int
    decreases s.len() - i,
{
    if 0 <= i < s.len() && is_ws(s[i]) { skip_ws_fwd(s, i + 1) } else { i }
}

pub open spec fn skip_word_fwd(s: Seq<char>, i: int) -> int
    decreases s.len() - i,
{
    if 0 <= i < s.len() && !is_ws(s[i]) { skip_word_fwd(s, i + 1) } else { i }
}

/// Position one whitespace-delimited word left of `cursor`.
pub open spec fn prev_word_spec(s: Seq<char>, cursor: usize) -> int {
    skip_word_back(s, skip_ws_back(s, clamp_pos(cursor, s.len())))
}

/// Position one whitespace-delimited word right of `cursor`.
pub open spec fn next_word_spec(s: Seq<char>, cursor: usize) -> int {
    skip_word_fwd(s, skip_ws_fwd(s, clamp_pos(cursor, s.len())))
}

proof fn lemma_skip_back_bounds(s: Seq<char>, i: int)
    requires
        0 <= i <= s.len(),
    ensures
        0 <= skip_ws_back(s, i) <= i,
        0 <= skip_word_back(s, i) <= i,
    decreases i,
{
    if i > 0 {
        lemma_skip_back_bounds(s, i - 1);
    }
}

proof fn lemma_skip_fwd_bounds(s: Seq<char>, i: int)
    requires
        0 <= i <= s.len(),
    ensures
        i <= skip_ws_fwd(s, i) <= s.len(),
        i <= skip_word_fwd(s, i) <= s.len(),
    decreases s.len() - i,
{
    if i < s.len() {
        lemma_skip_fwd_bounds(s, i + 1);
    }
}

/// Editable prompt state. `cursor` is a character index, not a byte offset.
pub struct Input {
    pub buf: String,
    pub cursor: usize,
    pub history: Vec<String>,
    pub hist_pos: Option<usize>,
    pub stash: String,
}

impl Input {
    /// An empty composer with no history.
    pub fn new() -> (r: Self)
        ensures
            r.buf@ == Seq::<char>::empty(),
            r.cursor == 0,
            r.history@.len() == 0,
            r.hist_pos is None,
            r.stash@ == Seq::<char>::empty(),
    {
        Input {
            buf: String::new(),
            cursor: 0,
            history: Vec::new(),
            hist_pos: None,
            stash: String::new(),
        }
    }

    /// Character count of the buffer (the cursor's upper bound).
    pub fn len_chars(&self) -> (n: usize)
        ensures
            n == self.buf@.len(),
    {
        self.buf.as_str().unicode_len()
    }

    /// Inserts `ch` at the cursor and moves the cursor past it.
    pub fn insert(&mut self, ch: char)
        requires
            old(self).cursor <= old(self).buf@.len() || old(self).cursor < usize::MAX,
        ensures
            inserted(*old(self), *final(self), ch),
    {
        let chars = chars_of(self.buf.as_str());
        let at = if self.cursor < chars.len() { self.cursor } else { chars.len() };
        let ins = vec![ch];
        let next = splice(&chars, at, at, ins.as_slice());
        let total = next.len();
        assert(total == chars@.len() + 1);
        self.buf = string_of(next.as_slice());
        self.cursor = self.cursor + 1;
        self.hist_pos = None;
        assert(self.buf@ == splice_spec(old(self).buf@, at as int, at as int, seq![ch]));
        assert(at as int == clamp_pos(old(self).cursor, old(self).buf@.len()));
        assert(self.cursor == old(self).cursor + 1);
    }

    /// Inserts `s` at the cursor and moves the cursor past it.
    pub fn insert_str(&mut self, s: &str)
        requires
            old(self).cursor + s@.len() <= usize::MAX,
        ensures
            final(self).buf@ == splice_spec(old(self).buf@, clamp_pos(old(self).cursor, old(self).buf@.len()),
                clamp_pos(old(self).cursor, old(self).buf@.len()), s@),
            final(self).cursor == old(self).cursor + s@.len(),
            final(self).hist_pos is None,
            final(self).history == old(self).history,
            final(self).stash == old(self).stash,
    {
        let chars = chars_of(self.buf.as_str());
        let at = if self.cursor < chars.len() { self.cursor } else { chars.len() };
        let ins = chars_of(s);
        let next = splice(&chars, at, at, ins.as_slice());
        self.buf = string_of(next.as_slice());
        self.cursor = self.cursor + ins.len();
        self.hist_pos = None;
    }

    /// Deletes the character left of the cursor and moves the cursor back
    /// one; nothing happens at position zero.
    pub fn backspace(&mut self)
        ensures
            backspaced(*old(self), *final(self)),
    {
        if self.cursor == 0 {
            return;
        }
        let chars = chars_of(self.buf.as_str());
        let c = self.cursor;
        let start = if c - 1 < chars.len() { c - 1 } else { chars.len() };
        let end = if c < chars.len() { c } else { chars.len() };
        let empty: Vec<char> = Vec::new();
        let next = splice(&chars, start, end, empty.as_slice());
        self.buf = string_of(next.as_slice());
        self.cursor = c - 1;
    }

    /// Deletes back to the start of the previous word (trailing whitespace
    /// first, then the word) and moves the cursor there.
    pub fn delete_word_back(&mut self)
        ensures
            final(self).buf@ == splice_spec(old(self).buf@, prev_word_spec(old(self).buf@, old(self).cursor),
                clamp_pos(old(self).cursor, old(self).buf@.len()), Seq::empty()),
            final(self).cursor == prev_word_spec(old(self).buf@, old(self).cursor),
            final(self).hist_pos == old(self).hist_pos,
            final(self).history == old(self).history,
            final(self).stash == old(self).stash,
    {
        let i = self.prev_word();
        let chars = chars_of(self.buf.as_str());
        let end = if self.cursor < chars.len() { self.cursor } else { chars.len() };
        proof {
            lemma_skip_back_bounds(self.buf@, clamp_pos(self.cursor, self.buf@.len()));
            lemma_skip_back_bounds(self.buf@, skip_ws_back(self.buf@, clamp_pos(self.cursor, self.buf@.len())));
        }
        let empty: Vec<char> = Vec::new();
        let next = splice(&chars, i, end, empty.as_slice());
        self.buf = string_of(next.as_slice());
        self.cursor = i;
    }

    /// Deletes everything from the cursor to the end of the buffer.
    pub fn kill_to_end(&mut self)
        ensures
            final(self).buf@ == old(self).buf@.subrange(0, clamp_pos(old(self).cursor, old(self).buf@.len())),
            final(self).cursor == old(self).cursor,
            final(self).hist_pos == old(self).hist_pos,
            final(self).history == old(self).history,
            final(self).stash == old(self).stash,
    {
        let chars = chars_of(self.buf.as_str());
        let at = if self.cursor < chars.len() { self.cursor } else { chars.len() };
        let empty: Vec<char> = Vec::new();
        let next = splice(&chars, at, chars.len(), empty.as_slice());
        self.buf = string_of(next.as_slice());
    }

    /// Deletes everything before the cursor and moves the cursor to zero.
    pub fn kill_to_start(&mut self)
        ensures
            final(self).buf@ == old(self).buf@.subrange(clamp_pos(old(self).cursor, old(self).buf@.len()),
                old(self).buf@.len() as int),
            final(self).cursor == 0,
            final(self).hist_pos == old(self).hist_pos,
            final(self).history == old(self).history,
            final(self).stash == old(self).stash,
    {
        let chars = chars_of(self.buf.as_str());
        let at = if self.cursor < chars.len() { self.cursor } else { chars.len() };
        let empty: Vec<char> = Vec::new();
        let next = splice(&chars, 0, at, empty.as_slice());
        self.buf = string_of(next.as_slice());
        self.cursor = 0;
    }

    /// Deletes the character under the cursor; nothing happens at or past
    /// the end of the buffer. The cursor stays put.
    pub fn delete_forward(&mut self)
        ensures
            old(self).cursor >= old(self).buf@.len() ==> *final(self) == *old(self),
            old(self).cursor < old(self).buf@.len() ==> {
                &&& final(self).buf@ == splice_spec(old(self).buf@, old(self).cursor as int,
                    old(self).cursor + 1, Seq::empty())
                &&& final(self).cursor == old(self).cursor
                &&& final(self).hist_pos == old(self).hist_pos
                &&& final(self).history == old(self).history
                &&& final(self).stash == old(self).stash
            },
    {
        if self.cursor >= self.len_chars() {
            return;
        }
        let chars = chars_of(self.buf.as_str());
        let empty: Vec<char> = Vec::new();
        let next = splice(&chars, self.cursor, self.cursor + 1, empty.as_slice());
        self.buf = string_of(next.as_slice());
    }

    /// Cursor position one whitespace-delimited word to the left.
    pub fn prev_word(&self) -> (r: usize)
        ensures
            r == prev_word_spec(self.buf@, self.cursor),
            r <= clamp_pos(self.cursor, self.buf@.len()),
    {
        let chars = chars_of(self.buf.as_str());
        let mut i = if self.cursor < chars.len() { self.cursor } else { chars.len() };
        let ghost s = self.buf@;
        let ghost start = i as int;
        while i > 0 && is_whitespace(chars[i - 1])
            invariant
                chars@ == s,
                i <= chars@.len(),
                skip_ws_back(s, i as int) == skip_ws_back(s, start),
                i <= start,
            decreases i,
        {
            i -= 1;
        }
        let ghost mid = i as int;
        while i > 0 && !is_whitespace(chars[i - 1])
            invariant
                chars@ == s,
                i <= chars@.len(),
                skip_word_back(s, i as int) == skip_word_back(s, mid),
                i <= mid,
            decreases i,
        {
            i -= 1;
        }
        i
    }

    /// Cursor position one whitespace-delimited word to the right.
    pub fn next_word(&self) -> (r: usize)
        ensures
            r == next_word_spec(self.buf@, self.cursor),
            clamp_pos(self.cursor, self.buf@.len()) <= r <= self.buf@.len(),
    {
        let chars = chars_of(self.buf.as_str());
        let n = chars.len();
        let mut i = if self.cursor < n { self.cursor } else { n };
        let ghost s = self.buf@;
        let ghost start = i as int;
        while i < n && is_whitespace(chars[i])
            invariant
                chars@ == s,
                n == s.len(),
                start <= i <= n,
                skip_ws_fwd(s, i as int) == skip_ws_fwd(s, start),
            decreases n - i,
        {
            i += 1;
        }
        let ghost mid = i as int;
        while i < n && !is_whitespace(chars[i])
            invariant
                chars@ == s,
                n == s.len(),
                mid <= i <= n,
                start <= mid,
                skip_word_fwd(s, i as int) == skip_word_fwd(s, mid),
            decreases n - i,
        {
            i += 1;
        }
        i
    }

    /// Empties the buffer, parks the cursor at zero and leaves history
    /// browsing.
    pub fn clear(&mut self)
        ensures
            final(self).buf@ == Seq::<char>::empty(),
            final(self).cursor == 0,
            final(self).hist_pos is None,
            final(self).history == old(self).history,
            final(self).stash == old(self).stash,
    {
        self.buf = String::new();
        self.cursor = 0;
        self.hist_pos = None;
    }

    /// Replaces the buffer with `s` and puts the cursor at its end.
    pub fn set(&mut self, s: String)
        ensures
            final(self).buf@ == s@,
            final(self).cursor == s@.len(),
            final(self).hist_pos == old(self).hist_pos,
            final(self).history == old(self).history,
            final(self).stash == old(self).stash,
    {
        self.cursor = s.as_str().unicode_len();
        self.buf = s;
    }

    /// Whether the buffer holds no characters.
    pub fn is_empty(&self) -> (b: bool)
        ensures
            b == (self.buf@.len() == 0),
    {
        self.buf.as_str().unicode_len() == 0
    }

    /// Up on an empty draft (or while browsing): steps to the previous
    /// history entry, stashing the draft when browsing starts. A non-empty
    /// draft that is not a history entry, or an empty history, is left alone.
    pub fn history_prev(&mut self)
        requires
            old(self).hist_pos matches Some(p) ==> p <= old(self).history@.len(),
        ensures
            history_view(*final(self)) == history_prev_spec(history_view(*old(self))),
            final(self).history == old(self).history,
    {
        if !self.is_empty() && self.hist_pos.is_none() {
            return;
        }
        if self.history.len() == 0 {
            return;
        }
        let pos = match self.hist_pos {
            None => {
                self.stash = self.buf.clone();
                self.history.len() - 1
            },
            Some(p) => if p == 0 { 0 } else { p - 1 },
        };
        self.hist_pos = Some(pos);
        let entry = self.history[pos].clone();
        self.set(entry);
    }

    /// Down while browsing: steps to the next history entry, or past the
    /// newest back to the stashed draft. Outside browsing it does nothing.
    pub fn history_next(&mut self)
        ensures
            history_view(*final(self)) == history_next_spec(history_view(*old(self))),
            final(self).history == old(self).history,
    {
        let pos = match self.hist_pos {
            Some(p) => p,
            None => return,
        };
        if pos as u128 + 1 >= self.history.len() as u128 {
            self.hist_pos = None;
            let mut stash = String::new();
            std::mem::swap(&mut stash, &mut self.stash);
            self.set(stash);
        } else {
            self.hist_pos = Some(pos + 1);
            let entry = self.history[pos + 1].clone();
            self.set(entry);
        }
    }
}

/// The history-browsing state of a composer as character sequences.
pub struct HistoryView {
    pub buf: Seq<char>,
    pub cursor: int,
    pub history: Seq<Seq<char>>,
    pub hist_pos: Option<int>,
    pub stash: Seq<char>,
}

/// The history-browsing state of `i`.
pub open spec fn history_view(i: Input) -> HistoryView {
    HistoryView {
        buf: i.buf@,
        cursor: i.cursor as int,
        history: i.history@.map_values(|h: String| h@),
        hist_pos: match i.hist_pos {
            Some(p) => Some(p as int),
            None => None,
        },
        stash: i.stash@,
    }
}

/// What Up does to the history-browsing state.
pub open spec fn history_prev_spec(h: HistoryView) -> HistoryView {
    if (h.buf.len() > 0 && h.hist_pos is None) || h.history.len() == 0 {
        h
    } else {
        let pos = match h.hist_pos {
            None => h.history.len() - 1,
            Some(p) => if p == 0 { 0 } else { p - 1 },
        };
        HistoryView {
            buf: h.history[pos],
            cursor: h.history[pos].len() as int,
            history: h.history,
            hist_pos: Some(pos),
            stash: if h.hist_pos is None { h.buf } else { h.stash },
        }
    }
}

/// What Down does to the history-browsing state.
pub open spec fn history_next_spec(h: HistoryView) -> HistoryView {
    match h.hist_pos {
        None => h,
        Some(p) => if p + 1 >= h.history.len() {
            HistoryView {
                buf: h.stash,
                cursor: h.stash.len() as int,
                history: h.history,
                hist_pos: None,
                stash: Seq::empty(),
            }
        } else {
            HistoryView {
                buf: h.history[p + 1],
                cursor: h.history[p + 1].len() as int,
                history: h.history,
                hist_pos: Some(p + 1),
                stash: h.stash,
            }
        },
    }
}

/// Opening history from an empty draft and stepping straight back down
/// restores the empty draft (the stash is consumed).
pub proof fn law_history_round_trip(h: HistoryView)
    requires
        h.hist_pos is None,
        h.buf.len() == 0,
        h.cursor == 0,
        h.history.len() > 0,
    ensures
        history_next_spec(history_prev_spec(h)) == (HistoryView { stash: Seq::empty(), ..h }),
{
}

/// While browsing, Down undoes Up: from entry `p` (not the oldest, shown in
/// full), Up then Down shows entry `p` again with the same stash.
pub proof fn law_history_next_undoes_prev(h: HistoryView, p: int)
    requires
        h.hist_pos == Some(p),
        0 < p < h.history.len(),
        h.buf == h.history[p],
        h.cursor == h.buf.len(),
    ensures
        history_next_spec(history_prev_spec(h)) == h,
{
}

/// What `insert` does: `ch` enters the buffer at the (clamped) cursor, the
/// cursor moves one right, history browsing ends, and the history and the
/// stash stay.
pub open spec fn inserted(before: Input, after: Input, ch: char) -> bool {
    let k = clamp_pos(before.cursor, before.buf@.len());
    &&& after.buf@ == splice_spec(before.buf@, k, k, seq![ch])
    &&& after.cursor == before.cursor + 1
    &&& after.hist_pos is None
    &&& after.history == before.history
    &&& after.stash == before.stash
}

/// What `backspace` does: nothing at position zero; elsewhere the
/// character left of the (clamped) cursor leaves the buffer and the cursor
/// moves one left, all else staying.
pub open spec fn backspaced(before: Input, after: Input) -> bool {
    if before.cursor == 0 {
        after == before
    } else {
        &&& after.buf@ == splice_spec(before.buf@,
            clamp_pos((before.cursor - 1) as usize, before.buf@.len()),
            clamp_pos(before.cursor, before.buf@.len()), Seq::empty())
        &&& after.cursor == before.cursor - 1
        &&& after.hist_pos == before.hist_pos
        &&& after.history == before.history
        &&& after.stash == before.stash
    }
}

/// Backspace undoes an insert: with the cursor inside the buffer,
/// inserting a character and then deleting back over it gives the buffer
/// and the cursor of before.
pub proof fn law_backspace_undoes_insert(a: Input, b: Input, c: Input, ch: char)
    requires
        a.cursor <= a.buf@.len(),
        inserted(a, b, ch),
        backspaced(b, c),
    ensures
        c.buf@ == a.buf@,
        c.cursor == a.cursor,
        c.history == a.history,
        c.stash == a.stash,
{
    let k = a.cursor as int;
    assert(clamp_pos(a.cursor, a.buf@.len()) == k);
    assert(b.buf@.len() == a.buf@.len() + 1);
    assert(b.cursor > 0);
    assert(clamp_pos((b.cursor - 1) as usize, b.buf@.len()) == k);
    assert(clamp_pos(b.cursor, b.buf@.len()) == k + 1);
    assert(splice_spec(b.buf@, k, k + 1, Seq::empty()) =~= a.buf@);
}

/// Killing to the end keeps exactly the text before the cursor and killing
/// to the start keeps exactly the text after it: together they partition
/// the buffer at the cursor.
pub proof fn law_kills_partition(s: Seq<char>, cursor: usize)
    ensures
        s.subrange(0, clamp_pos(cursor, s.len())) + s.subrange(clamp_pos(cursor, s.len()), s.len() as int) == s,
{
    assert(s.subrange(0, clamp_pos(cursor, s.len())) + s.subrange(clamp_pos(cursor, s.len()), s.len() as int) =~= s);
}

/// The word motions bracket the (clamped) cursor: the previous-word stop
/// is never right of it and the next-word stop never left of it, and both
/// stay inside the buffer.
pub proof fn law_word_motions_bracket_cursor(s: Seq<char>, cursor: usize)
    ensures
        0 <= prev_word_spec(s, cursor) <= clamp_pos(cursor, s.len()),
        clamp_pos(cursor, s.len()) <= next_word_spec(s, cursor) <= s.len(),
{
    let k = clamp_pos(cursor, s.len());
    lemma_skip_back_bounds(s, k);
    lemma_skip_back_bounds(s, skip_ws_back(s, k));
    lemma_skip_fwd_bounds(s, k);
    lemma_skip_fwd_bounds(s, skip_ws_fwd(s, k));
}

/// Every edit keeps a cursor that starts inside the buffer inside the
/// resulting buffer.
pub proof fn law_edits_keep_cursor_in_buffer(s: Seq<char>, cursor: usize, ch: char, ins: Seq<char>)
    requires
        cursor <= s.len(),
    ensures
        ({
            let k = clamp_pos(cursor, s.len());
            &&& cursor + 1 <= splice_spec(s, k, k, seq![ch]).len()
            &&& cursor + ins.len() <= splice_spec(s, k, k, ins).len()
            &&& cursor > 0 ==> cursor - 1 <= splice_spec(s, clamp_pos((cursor - 1) as usize, s.len()), k, Seq::empty()).len()
            &&& prev_word_spec(s, cursor) <= splice_spec(s, prev_word_spec(s, cursor), k, Seq::empty()).len()
            &&& cursor <= s.subrange(0, k).len()
            &&& cursor < s.len() ==> cursor <= splice_spec(s, cursor as int, cursor + 1, Seq::empty()).len()
        }),
{
    let k = clamp_pos(cursor, s.len());
    lemma_skip_back_bounds(s, k);
    lemma_skip_back_bounds(s, skip_ws_back(s, k));
}

} // verus!
