//! A simple single-line text box and the key presses it reacts to.

use vstd::prelude::*;
use vstd::string::StrSliceExecFns;

use crate::text::{
    byte_offset, char_at_byte, chars_and_offsets, lemma_char_at_byte_unique, string_insert,
    string_remove, str_width, text_width,
};

verus! {

/// The keys a text box reacts to.
#[derive(Debug, Clone, Copy, PartialEq, Eq, Structural)]
pub enum KeyCode {
    Backspace,
    Left,
    Right,
    Home,
    End,
    Delete,
    Char(char),
    Esc,
    Enter,
    Other,
}

/// Something that reacts to key presses.
pub trait EventHandler {
    type Reaction;

    fn handle_key(&mut self, code: KeyCode) -> Option<Self::Reaction>;
}

/// A simple single-line text box.
pub struct TextLine;

/// How a text box reacted to a key press.
#[derive(Debug, Clone, Copy, PartialEq, Eq, Structural)]
pub enum TextLineReaction {
    Handled,
    Close,
}

/// The content and cursor after a key press on a text box with `content`
/// and the cursor before character `cursor`, and the reaction.
pub open spec fn key_effect(content: Seq<char>, cursor: int, code: KeyCode) -> (
    Seq<char>,
    int,
    Option<TextLineReaction>,
) {
    let len = content.len() as int;
    if code == KeyCode::Backspace && cursor > 0 {
        (content.remove(cursor - 1), cursor - 1, Some(TextLineReaction::Handled))
    } else if code == KeyCode::Left {
        (content, if cursor > 0 {
            cursor - 1
        } else {
            cursor
        }, Some(TextLineReaction::Handled))
    } else if code == KeyCode::Right {
        (content, if cursor < len {
            cursor + 1
        } else {
            len
        }, Some(TextLineReaction::Handled))
    } else if code == KeyCode::Home {
        (content, 0, Some(TextLineReaction::Handled))
    } else if code == KeyCode::End {
        (content, len, Some(TextLineReaction::Handled))
    } else if code == KeyCode::Delete && cursor < len {
        (content.remove(cursor), cursor, Some(TextLineReaction::Handled))
    } else {
        match code {
            KeyCode::Char(c) => (content.insert(cursor, c), cursor + 1, Some(TextLineReaction::Handled)),
            KeyCode::Esc => (content, cursor, Some(TextLineReaction::Close)),
            _ => (content, cursor, None),
        }
    }
}

/// State of a [`TextLine`]: its content, the cursor (a character index) and
/// where the cursor was drawn last.
#[derive(Debug)]
pub struct TextLineState {
    content: String,
    cursor: usize,
    last_cursor_pos: (u16, u16),
}

impl Default for TextLineState {
    fn default() -> (r: Self)
        ensures
            r.spec_content() == Seq::<char>::empty(),
            r.spec_cursor() == 0,
            r.spec_last_cursor_pos() == (0u16, 0u16),
    {
        Self { content: String::new(), cursor: 0, last_cursor_pos: (0, 0) }
    }
}

impl TextLineState {
    #[verifier::type_invariant]
    spec fn cursor_in_content(&self) -> bool {
        self.cursor <= self.content@.len()
    }

    pub closed spec fn spec_content(&self) -> Seq<char> {
        self.content@
    }

    /// The number of characters before the cursor.
    pub closed spec fn spec_cursor(&self) -> int {
        self.cursor as int
    }

    pub closed spec fn spec_last_cursor_pos(&self) -> (u16, u16) {
        self.last_cursor_pos
    }

    pub fn content(&self) -> (r: String)
        ensures
            r@ == self.spec_content(),
    {
        self.content.clone()
    }

    /// The cursor's position from when the widget was last rendered.
    pub fn last_cursor_pos(&self) -> (r: (u16, u16))
        ensures
            r == self.spec_last_cursor_pos(),
    {
        self.last_cursor_pos
    }

    /// Records where the cursor is drawn when the text box is rendered into an
    /// area starting at column `x` of line `y` with `width` columns: after the
    /// characters before the cursor, but within the area.
    pub fn update_cursor_pos(&mut self, x: u16, y: u16, width: u16)
        requires
            x + width <= u16::MAX,
        ensures
            final(self).spec_content() == old(self).spec_content(),
            final(self).spec_cursor() == old(self).spec_cursor(),
            final(self).spec_last_cursor_pos() == ({
                let w = (text_width(old(self).spec_content().take(old(self).spec_cursor())) % 65536) as int;
                ((x + if w < width {
                    w
                } else {
                    width as int
                }) as u16, y)
            }),
    {
        proof {
            use_type_invariant(&*self);
        }
        let prefix = self.content.substring_char(0, self.cursor);
        let w = str_width(prefix);
        let position = (w % 65536) as u16;
        let shown = if position < width {
            position
        } else {
            width
        };
        self.last_cursor_pos = (x + shown, y);
    }

    /// The number of characters in the text box.
    fn chars(&self) -> (r: usize)
        ensures
            r == self.spec_content().len(),
    {
        self.content.unicode_len()
    }

    fn move_cursor_start(&mut self)
        ensures
            final(self).spec_content() == old(self).spec_content(),
            final(self).spec_cursor() == 0,
            final(self).spec_last_cursor_pos() == old(self).spec_last_cursor_pos(),
    {
        self.cursor = 0;
    }

    fn move_cursor_left(&mut self)
        ensures
            final(self).spec_content() == old(self).spec_content(),
            final(self).spec_cursor() == if old(self).spec_cursor() > 0 {
                old(self).spec_cursor() - 1
            } else {
                0
            },
            final(self).spec_last_cursor_pos() == old(self).spec_last_cursor_pos(),
    {
        proof {
            use_type_invariant(&*self);
        }
        if self.cursor > 0 {
            self.cursor -= 1;
        }
    }

    fn move_cursor_right(&mut self)
        ensures
            final(self).spec_content() == old(self).spec_content(),
            final(self).spec_cursor() == if old(self).spec_cursor() < old(self).spec_content().len() {
                old(self).spec_cursor() + 1
            } else {
                old(self).spec_content().len() as int
            },
            final(self).spec_last_cursor_pos() == old(self).spec_last_cursor_pos(),
    {
        proof {
            use_type_invariant(&*self);
        }
        let n = self.chars();
        if self.cursor < n {
            self.cursor += 1;
        } else {
            self.cursor = n;
        }
    }

    fn move_cursor_end(&mut self)
        ensures
            final(self).spec_content() == old(self).spec_content(),
            final(self).spec_cursor() == old(self).spec_content().len(),
            final(self).spec_last_cursor_pos() == old(self).spec_last_cursor_pos(),
    {
        self.cursor = self.chars();
    }

    /// The byte offset of the cursor within the content.
    fn cursor_byte_offset(&self) -> (r: usize)
        ensures
            char_at_byte(self.spec_content(), self.spec_cursor(), r as int),
    {
        proof {
            use_type_invariant(self);
        }
        let (_, offsets) = chars_and_offsets(self.content.as_str());
        offsets[self.cursor]
    }
}

impl EventHandler for TextLineState {
    type Reaction = TextLineReaction;

    fn handle_key(&mut self, code: KeyCode) -> (r: Option<TextLineReaction>)
        ensures
            (final(self).spec_content(), final(self).spec_cursor(), r) == key_effect(
                old(self).spec_content(),
                old(self).spec_cursor(),
                code,
            ),
            final(self).spec_last_cursor_pos() == old(self).spec_last_cursor_pos(),
    {
        proof {
            use_type_invariant(&*self);
        }
        let ghost c0 = self.content@;
        let ghost k0 = self.cursor as int;
        if code == KeyCode::Backspace && self.cursor > 0 {
            self.move_cursor_left();
            let idx = self.cursor_byte_offset();
            let mut content = self.content.clone();
            string_remove(&mut content, idx);
            proof {
                let k = choose|k: int|
                    char_at_byte(c0, k, idx as int) && k < c0.len() && content@ == c0.remove(k);
                lemma_char_at_byte_unique(c0, k, k0 - 1, idx as int);
            }
            self.content = content;
            Some(TextLineReaction::Handled)
        } else if code == KeyCode::Left {
            self.move_cursor_left();
            Some(TextLineReaction::Handled)
        } else if code == KeyCode::Right {
            self.move_cursor_right();
            Some(TextLineReaction::Handled)
        } else if code == KeyCode::Home {
            self.move_cursor_start();
            Some(TextLineReaction::Handled)
        } else if code == KeyCode::End {
            self.move_cursor_end();
            Some(TextLineReaction::Handled)
        } else if code == KeyCode::Delete && self.cursor < self.chars() {
            let idx = self.cursor_byte_offset();
            let mut content = self.content.clone();
            string_remove(&mut content, idx);
            proof {
                let k = choose|k: int|
                    char_at_byte(c0, k, idx as int) && k < c0.len() && content@ == c0.remove(k);
                lemma_char_at_byte_unique(c0, k, k0, idx as int);
            }
            self.content = content;
            Some(TextLineReaction::Handled)
        } else {
            match code {
                KeyCode::Char(c) => {
                    let idx = self.cursor_byte_offset();
                    let mut content = self.content.clone();
                    string_insert(&mut content, idx, c);
                    proof {
                        let k = choose|k: int|
                            char_at_byte(c0, k, idx as int) && content@ == c0.insert(k, c);
                        lemma_char_at_byte_unique(c0, k, k0, idx as int);
                    }
                    self.content = content;
                    self.move_cursor_right();
                    Some(TextLineReaction::Handled)
                },
                KeyCode::Esc => Some(TextLineReaction::Close),
                _ => None,
            }
        }
    }
}

/// Typing a character and then deleting it with backspace restores the
/// content and the cursor.
pub proof fn lemma_type_then_backspace(content: Seq<char>, cursor: int, c: char)
    requires
        0 <= cursor <= content.len(),
    ensures
        ({
            let (typed, at, _) = key_effect(content, cursor, KeyCode::Char(c));
            key_effect(typed, at, KeyCode::Backspace) == (
                content,
                cursor,
                Some(TextLineReaction::Handled),
            )
        }),
{
    let typed = content.insert(cursor, c);
    assert(typed.remove(cursor) =~= content);
}

/// The cursor always stays within the content.
pub proof fn lemma_key_keeps_cursor_in_content(content: Seq<char>, cursor: int, code: KeyCode)
    requires
        0 <= cursor <= content.len(),
    ensures
        ({
            let (c, k, _) = key_effect(content, cursor, code);
            0 <= k <= c.len()
        }),
{
}

} // verus!
