use vstd::prelude::*;
use vstd::utf8::encode_utf8;

use crate::text::{chars_of, is_white_space, string_of, white_space};

verus! {

/// The width in terminal cells of the widest line of a text, as ratatui measures it.
pub uninterp spec fn line_width_of(s: Seq<char>) -> usize;

/// Relies on ratatui's `Paragraph::line_width`: the display width of the widest line of the
/// text (no block around it), which depends on the text alone; an empty text has width 0.
#[verifier::external_body]
fn paragraph_width(s: String) -> (r: usize)
    ensures
        r == line_width_of(s@),
        s@.len() == 0 ==> r == 0,
{
    ratatui::widgets::Paragraph::new(s).line_width()
}

/// A key as the editor sees it; `ctrl` tells whether Control was held.
#[derive(Debug, Clone, Copy, PartialEq, Eq, Structural)]
pub enum EditKey {
    Left,
    Right,
    Backspace,
    Delete,
    Home,
    End,
    Char(char),
    Other,
}

/// A one-line text field with a cursor.
pub struct TextInput {
    input_buffer: Vec<char>,
    cursor: usize,
}

/// The field as a mathematical value: its text and the cursor, a character index.
pub struct EditorState {
    pub text: Seq<char>,
    pub cursor: int,
}

impl EditorState {
    /// The cursor lies within the text.
    pub open spec fn wf(self) -> bool {
        0 <= self.cursor <= self.text.len()
    }
}

impl View for TextInput {
    type V = EditorState;

    closed spec fn view(&self) -> EditorState {
        EditorState { text: self.input_buffer@, cursor: self.cursor as int }
    }
}

/// The start of the word before index `j`, moving left: white space is skipped first, then
/// the word (`in_word` once a non-space was seen).
pub open spec fn prev_word_start(s: Seq<char>, j: int, in_word: bool) -> int
    decreases j,
{
    if j <= 0 || j > s.len() {
        0
    } else if is_white_space(s[j - 1]) {
        if in_word {
            j
        } else {
            prev_word_start(s, j - 1, false)
        }
    } else {
        prev_word_start(s, j - 1, true)
    }
}

/// The start of the next word after index `j`, moving right: the rest of the current word and
/// the white space after it are skipped (`seen_space` once white space was passed).
pub open spec fn next_word_start(s: Seq<char>, j: int, seen_space: bool) -> int
    decreases s.len() - j,
{
    if j < 0 || j >= s.len() {
        s.len() as int
    } else if is_white_space(s[j]) {
        next_word_start(s, j + 1, true)
    } else if seen_space {
        j
    } else {
        next_word_start(s, j + 1, false)
    }
}

proof fn lemma_prev_word_start_bounds(s: Seq<char>, j: int, in_word: bool)
    requires
        0 <= j <= s.len(),
    ensures
        0 <= prev_word_start(s, j, in_word) <= j,
    decreases j,
{
    if j > 0 {
        lemma_prev_word_start_bounds(s, j - 1, false);
        lemma_prev_word_start_bounds(s, j - 1, true);
    }
}

proof fn lemma_next_word_start_bounds(s: Seq<char>, j: int, seen_space: bool)
    requires
        0 <= j <= s.len(),
    ensures
        j <= next_word_start(s, j, seen_space) <= s.len(),
    decreases s.len() - j,
{
    if j < s.len() {
        lemma_next_word_start_bounds(s, j + 1, false);
        lemma_next_word_start_bounds(s, j + 1, true);
    }
}

/// The field after `key` was pressed, and whether the key was for the field.
pub open spec fn after_key(e: EditorState, key: EditKey, ctrl: bool) -> (EditorState, bool) {
    let s = e.text;
    let c = e.cursor;
    match key {
        EditKey::Left => if ctrl {
            (EditorState { cursor: prev_word_start(s, c, false), ..e }, true)
        } else {
            (EditorState { cursor: if c > 0 { c - 1 } else { c }, ..e }, true)
        },
        EditKey::Right => if ctrl {
            (EditorState { cursor: next_word_start(s, c, false), ..e }, true)
        } else {
            (EditorState { cursor: if c < s.len() { c + 1 } else { c }, ..e }, true)
        },
        EditKey::Backspace => if c > 0 {
            (EditorState { text: s.remove(c - 1), cursor: c - 1 }, true)
        } else {
            (e, true)
        },
        EditKey::Delete => if c < s.len() {
            (EditorState { text: s.remove(c), cursor: c }, true)
        } else {
            (e, true)
        },
        EditKey::Home => (EditorState { cursor: 0, ..e }, true),
        EditKey::End => (EditorState { cursor: s.len() as int, ..e }, true),
        EditKey::Char(ch) => (EditorState { text: s.insert(c, ch), cursor: c + 1 }, true),
        EditKey::Other => (e, false),
    }
}

impl TextInput {
    /// An empty field.
    pub fn new() -> (r: Self)
        ensures
            r@ == (EditorState { text: Seq::empty(), cursor: 0 }),
            r@.wf(),
    {
        TextInput { input_buffer: Vec::new(), cursor: 0 }
    }

    fn find_prev_word_boundary(&self, from: usize) -> (r: usize)
        requires
            from <= self@.text.len(),
        ensures
            r == prev_word_start(self@.text, from as int, false),
    {
        let s = &self.input_buffer;
        let mut j = from;
        let mut in_word = false;
        while j > 0
            invariant
                s == &self.input_buffer,
                j <= from <= s.len(),
                prev_word_start(s@, from as int, false) == prev_word_start(s@, j as int, in_word),
            decreases j,
        {
            if white_space(s[j - 1]) {
                if in_word {
                    return j;
                }
            } else {
                in_word = true;
            }
            j = j - 1;
        }
        0
    }

    fn find_next_word_boundary(&self, from: usize) -> (r: usize)
        requires
            from <= self@.text.len(),
        ensures
            r == next_word_start(self@.text, from as int, false),
    {
        let s = &self.input_buffer;
        let mut j = from;
        let mut seen_space = false;
        while j < s.len()
            invariant
                s == &self.input_buffer,
                from <= j <= s.len(),
                next_word_start(s@, from as int, false) == next_word_start(
                    s@,
                    j as int,
                    seen_space,
                ),
            decreases s.len() - j,
        {
            if white_space(s[j]) {
                seen_space = true;
            } else if seen_space {
                return j;
            }
            j = j + 1;
        }
        s.len()
    }

    /// Applies a key press; returns whether the key was for the field (see `after_key`).
    pub fn handle_input(&mut self, key: EditKey, ctrl: bool) -> (r: bool)
        requires
            old(self)@.wf(),
        ensures
            (final(self)@, r) == after_key(old(self)@, key, ctrl),
            final(self)@.wf(),
    {
        proof {
            lemma_prev_word_start_bounds(self@.text, self@.cursor, false);
            lemma_next_word_start_bounds(self@.text, self@.cursor, false);
        }
        match key {
            EditKey::Left => {
                if ctrl {
                    self.cursor = self.find_prev_word_boundary(self.cursor);
                } else if self.cursor > 0 {
                    self.cursor = self.cursor - 1;
                }
                true
            },
            EditKey::Right => {
                if ctrl {
                    self.cursor = self.find_next_word_boundary(self.cursor);
                } else if self.cursor < self.input_buffer.len() {
                    self.cursor = self.cursor + 1;
                }
                true
            },
            EditKey::Backspace => {
                if self.cursor > 0 {
                    self.input_buffer.remove(self.cursor - 1);
                    self.cursor = self.cursor - 1;
                }
                true
            },
            EditKey::Delete => {
                if self.cursor < self.input_buffer.len() {
                    self.input_buffer.remove(self.cursor);
                }
                true
            },
            EditKey::Home => {
                self.cursor = 0;
                true
            },
            EditKey::End => {
                self.cursor = self.input_buffer.len();
                true
            },
            EditKey::Char(c) => {
                self.input_buffer.insert(self.cursor, c);
                let n = self.input_buffer.len();
                assert(self.cursor < n);
                self.cursor = self.cursor + 1;
                true
            },
            EditKey::Other => false,
        }
    }

    /// Inserts `text` at the cursor and moves the cursor after it.
    pub fn paste(&mut self, text: &str)
        requires
            old(self)@.wf(),
        ensures
            final(self)@.text == old(self)@.text.take(old(self)@.cursor) + text@ + old(
                self,
            )@.text.skip(old(self)@.cursor),
            final(self)@.cursor == old(self)@.cursor + text@.len(),
            final(self)@.wf(),
    {
        let chars = chars_of(text);
        let ghost s0 = self.input_buffer@;
        let ghost c0 = self.cursor as int;
        let mut i: usize = 0;
        assert(chars@.take(0) =~= Seq::<char>::empty());
        assert(s0.take(c0) + Seq::<char>::empty() + s0.skip(c0) =~= s0);
        while i < chars.len()
            invariant
                chars@ == text@,
                i <= chars.len(),
                self.cursor == c0 + i,
                self.input_buffer@ == s0.take(c0) + chars@.take(i as int) + s0.skip(c0),
                self.cursor <= self.input_buffer.len(),
                self.input_buffer.len() == s0.len() + i,
                0 <= c0 <= s0.len(),
            decreases chars.len() - i,
        {
            self.input_buffer.insert(self.cursor, chars[i]);
            let n = self.input_buffer.len();
            assert(self.cursor < n);
            self.cursor = self.cursor + 1;
            assert(self.input_buffer@ =~= s0.take(c0) + chars@.take(i + 1) + s0.skip(c0));
            i = i + 1;
        }
        assert(chars@.take(chars.len() as int) =~= text@);
    }

    /// The text of the field.
    pub fn text(&self) -> (r: String)
        ensures
            r@ == self@.text,
    {
        string_of(&self.input_buffer, 0, self.input_buffer.len())
    }

    /// Replaces the text and puts the cursor at its end.
    pub fn set_text(&mut self, text: String)
        ensures
            final(self)@ == (EditorState { text: text@, cursor: text@.len() as int }),
            final(self)@.wf(),
    {
        self.input_buffer = chars_of(text.as_str());
        self.cursor = self.input_buffer.len();
    }

    /// Empties the field.
    pub fn clear(&mut self)
        ensures
            final(self)@ == (EditorState { text: Seq::empty(), cursor: 0 }),
            final(self)@.wf(),
    {
        self.input_buffer = Vec::new();
        self.cursor = 0;
    }

    /// The cursor as a byte offset into the UTF-8 text.
    pub fn cursor_position(&self) -> (r: usize)
        requires
            self@.wf(),
        ensures
            r == encode_utf8(self@.text.take(self@.cursor)).len() as usize,
    {
        let before = string_of(&self.input_buffer, 0, self.cursor);
        assert(self.input_buffer@.subrange(0, self.cursor as int) =~= self@.text.take(
            self@.cursor,
        ));
        before.as_str().len()
    }

    /// The column of the cursor on screen: the display width of the text before it.
    pub fn cursor_offset(&self) -> (r: u16)
        requires
            self@.wf(),
        ensures
            r == line_width_of(self@.text.take(self@.cursor)) as u16,
            self@.cursor == 0 ==> r == 0,
    {
        paragraph_width(self.text_before_cursor()) as u16
    }

    /// The text before the cursor.
    pub fn text_before_cursor(&self) -> (r: String)
        requires
            self@.wf(),
        ensures
            r@ == self@.text.take(self@.cursor),
    {
        let r = string_of(&self.input_buffer, 0, self.cursor);
        assert(self.input_buffer@.subrange(0, self.cursor as int) =~= self@.text.take(
            self@.cursor,
        ));
        r
    }
}

} // verus!
