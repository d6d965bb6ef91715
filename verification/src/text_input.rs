//! A single-line text input: a string, a cursor that stays on a character
//! boundary, and a capacity limit. The surrounding user interface maps key
//! presses to these editing operations and renders the result.

use vstd::prelude::*;

use crate::codec::push_char;

verus! {

/// How a text input is set up.
pub struct InitProperties {
    pub cursor_limit: usize,
    pub is_password: bool,
}

/// A single-line editable text field. The cursor counts characters, never
/// bytes, so editing is safe for any text.
pub struct TextInput {
    text: String,
    cursor_position: usize,
    cursor_limit: usize,
    is_password: bool,
}

impl TextInput {
    /// The field's characters.
    pub closed spec fn text_view(&self) -> Seq<char> {
        self.text@
    }

    /// Where the cursor stands, in characters from the left.
    pub closed spec fn cursor(&self) -> usize {
        self.cursor_position
    }

    /// The most characters the field may hold.
    pub closed spec fn limit(&self) -> usize {
        self.cursor_limit
    }

    /// Whether the field's contents are masked when shown.
    pub closed spec fn password(&self) -> bool {
        self.is_password
    }

    /// The cursor never leaves the text, and the text never exceeds the
    /// limit.
    pub open spec fn wf(&self) -> bool {
        self.cursor() <= self.text_view().len() && self.text_view().len() <= self.limit()
    }

    /// Builds an empty field.
    pub fn new(init_properties: InitProperties) -> (r: TextInput)
        ensures
            r.wf(),
            r.text_view() == Seq::<char>::empty(),
            r.cursor() == 0,
            r.limit() == init_properties.cursor_limit,
            r.password() == init_properties.is_password,
    {
        TextInput {
            text: String::new(),
            cursor_position: 0,
            cursor_limit: init_properties.cursor_limit,
            is_password: init_properties.is_password,
        }
    }

    /// The field's text, for rendering and submission.
    pub fn text(&self) -> (r: &str)
        ensures
            r@ == self.text_view(),
    {
        self.text.as_str()
    }

    /// The cursor position, for rendering.
    pub fn cursor_position(&self) -> (r: usize)
        ensures
            r == self.cursor(),
    {
        self.cursor_position
    }

    /// Caps a candidate cursor position at the field's limit.
    pub fn clamp_cursor(&self, new_cursor_pos: usize) -> (r: usize)
        ensures
            r == if new_cursor_pos <= self.limit() {
                new_cursor_pos as int
            } else {
                self.limit() as int
            },
    {
        if new_cursor_pos <= self.cursor_limit {
            new_cursor_pos
        } else {
            self.cursor_limit
        }
    }

    /// Moves the cursor one character left, stopping at the start.
    pub fn move_cursor_left(&mut self)
        requires
            old(self).wf(),
        ensures
            final(self).wf(),
            final(self).text_view() == old(self).text_view(),
            final(self).limit() == old(self).limit(),
            final(self).password() == old(self).password(),
            final(self).cursor() == if old(self).cursor() > 0 {
                old(self).cursor() - 1
            } else {
                0int
            },
    {
        let moved = if self.cursor_position > 0 {
            self.cursor_position - 1
        } else {
            0
        };
        self.cursor_position = self.clamp_cursor(moved);
    }

    /// Moves the cursor one character right, stopping at the end of the
    /// text.
    pub fn move_cursor_right(&mut self)
        requires
            old(self).wf(),
        ensures
            final(self).wf(),
            final(self).text_view() == old(self).text_view(),
            final(self).limit() == old(self).limit(),
            final(self).password() == old(self).password(),
            final(self).cursor() == if old(self).cursor() < old(self).text_view().len() {
                old(self).cursor() + 1
            } else {
                old(self).cursor() as int
            },
    {
        let n = self.text.as_str().unicode_len();
        if self.cursor_position < n {
            let moved = self.cursor_position + 1;
            self.cursor_position = self.clamp_cursor(moved);
        }
    }

    /// Inserts a character at the cursor and moves the cursor past it; a
    /// full field is left unchanged.
    pub fn enter_char(&mut self, new_char: char)
        requires
            old(self).wf(),
        ensures
            final(self).wf(),
            final(self).limit() == old(self).limit(),
            final(self).password() == old(self).password(),
            old(self).text_view().len() >= old(self).limit() ==> (final(self).text_view()
                == old(self).text_view() && final(self).cursor() == old(self).cursor()),
            old(self).text_view().len() < old(self).limit() ==> (final(self).text_view()
                == old(self).text_view().insert(old(self).cursor() as int, new_char)
                && final(self).cursor() == old(self).cursor() + 1),
    {
        let n = self.text.as_str().unicode_len();
        if n >= self.cursor_limit {
            return ;
        }
        let pos = self.cursor_position;
        let mut out = String::from_str(self.text.as_str().substring_char(0, pos));
        push_char(&mut out, new_char);
        out.append(self.text.as_str().substring_char(pos, n));
        proof {
            assert(out@ =~= old(self).text_view().insert(old(self).cursor() as int, new_char));
        }
        self.text = out;
        self.move_cursor_right();
    }

    /// Removes the character left of the cursor and moves the cursor back;
    /// with the cursor at the start nothing changes.
    pub fn delete_char(&mut self)
        requires
            old(self).wf(),
        ensures
            final(self).wf(),
            final(self).limit() == old(self).limit(),
            final(self).password() == old(self).password(),
            old(self).cursor() == 0 ==> (final(self).text_view() == old(self).text_view()
                && final(self).cursor() == 0),
            old(self).cursor() > 0 ==> (final(self).text_view()
                == old(self).text_view().remove(old(self).cursor() - 1)
                && final(self).cursor() == old(self).cursor() - 1),
    {
        let is_not_cursor_leftmost = self.cursor_position != 0;
        if is_not_cursor_leftmost {
            let n = self.text.as_str().unicode_len();
            let pos = self.cursor_position;
            let mut out = String::from_str(self.text.as_str().substring_char(0, pos - 1));
            out.append(self.text.as_str().substring_char(pos, n));
            proof {
                assert(out@ =~= old(self).text_view().remove(old(self).cursor() - 1));
            }
            self.move_cursor_left();
            self.text = out;
        }
    }

    /// The text as it is rendered: masked character for character if the
    /// field is a password field, as it is otherwise.
    pub fn display_text(&self) -> (r: String)
        ensures
            !self.password() ==> r@ == self.text_view(),
            self.password() ==> r@.len() == self.text_view().len() && (forall|i: int|
                0 <= i < r@.len() ==> r@[i] == '*'),
    {
        if self.is_password {
            let n = self.text.as_str().unicode_len();
            let mut out = String::new();
            let mut i: usize = 0;
            while i < n
                invariant
                    i <= n,
                    out@.len() == i,
                    forall|k: int| 0 <= k < i ==> out@[k] == '*',
                decreases n - i,
            {
                push_char(&mut out, '*');
                i = i + 1;
            }
            out
        } else {
            self.text.clone()
        }
    }
}

} // verus!
