//! A single-line text buffer with an insertion caret.
use vstd::prelude::*;

verus! {

pub enum CursorDirection {
    Left,
    Right,
}

/// The text being typed, as characters, and the caret: the number of
/// characters before it.
pub struct CursorManager {
    pub text: Vec<char>,
    pub cursor_position: usize,
}

/// Relies on `String::push`: appends one character at the end.
#[verifier::external_body]
pub(crate) fn push_char(s: &mut String, c: char)
    ensures
        final(s)@ == old(s)@.push(c),
{
    s.push(c);
}

fn chars_to_string(chars: &Vec<char>) -> (r: String)
    ensures
        r@ == chars@,
{
    let mut r = String::new();
    let mut i: usize = 0;
    while i < chars.len()
        invariant
            0 <= i <= chars@.len(),
            r@ == chars@.subrange(0, i as int),
        decreases chars@.len() - i,
    {
        push_char(&mut r, chars[i]);
        assert(chars@.subrange(0, i + 1) =~= chars@.subrange(0, i as int).push(chars@[i as int]));
        i = i + 1;
    }
    assert(chars@.subrange(0, i as int) =~= chars@);
    r
}

/// What `insert(c)` makes of the editor `m`.
pub open spec fn insert_post(m: CursorManager, n: CursorManager, c: char) -> bool {
    &&& n.text@ == m.text@.insert(m.cursor_position as int, c)
    &&& n.cursor_position == m.cursor_position + 1
}

/// What `delete()` makes of the editor `m`: nothing changes at the start.
pub open spec fn delete_post(m: CursorManager, n: CursorManager) -> bool {
    if m.cursor_position > 0 {
        &&& n.text@ == m.text@.remove(m.cursor_position - 1)
        &&& n.cursor_position == m.cursor_position - 1
    } else {
        &&& n.text@ == m.text@
        &&& n.cursor_position == 0
    }
}

/// What `move_cursor(dir)` makes of the editor `m`: the caret moves by one
/// unless it is at that end of the text.
pub open spec fn move_post(m: CursorManager, n: CursorManager, dir: CursorDirection) -> bool {
    &&& n.text@ == m.text@
    &&& match dir {
        CursorDirection::Left => if m.cursor_position > 0 {
            n.cursor_position == m.cursor_position - 1
        } else {
            n.cursor_position == m.cursor_position
        },
        CursorDirection::Right => if m.cursor_position < m.text@.len() {
            n.cursor_position == m.cursor_position + 1
        } else {
            n.cursor_position == m.cursor_position
        },
    }
}

impl CursorManager {
    /// The caret never passes the end of the text.
    pub open spec fn wf(&self) -> bool {
        self.cursor_position <= self.text@.len()
    }

    pub fn new() -> (m: CursorManager)
        ensures
            m.wf(),
            m.text@.len() == 0,
            m.cursor_position == 0,
    {
        CursorManager { text: Vec::new(), cursor_position: 0 }
    }

    /// The text as a string.
    pub fn string(&self) -> (r: String)
        ensures
            r@ == self.text@,
    {
        chars_to_string(&self.text)
    }

    /// Inserts `c` at the caret and moves the caret past it.
    pub fn insert(&mut self, c: char)
        requires
            old(self).wf(),
        ensures
            final(self).wf(),
            insert_post(*old(self), *final(self), c),
    {
        self.text.insert(self.cursor_position, c);
        let len = self.text.len();
        assert(self.cursor_position < len);
        self.cursor_position = self.cursor_position + 1;
    }

    /// Removes the character before the caret; nothing happens at the start.
    pub fn delete(&mut self)
        requires
            old(self).wf(),
        ensures
            final(self).wf(),
            delete_post(*old(self), *final(self)),
    {
        if self.cursor_position > 0 {
            self.text.remove(self.cursor_position - 1);
            self.cursor_position = self.cursor_position - 1;
        }
    }

    /// Moves the caret by one character, staying within the text.
    pub fn move_cursor(&mut self, dir: CursorDirection)
        requires
            old(self).wf(),
        ensures
            final(self).wf(),
            move_post(*old(self), *final(self), dir),
    {
        match dir {
            CursorDirection::Left => {
                if self.cursor_position > 0 {
                    self.cursor_position = self.cursor_position - 1;
                }
            },
            CursorDirection::Right => {
                if self.cursor_position < self.text.len() {
                    self.cursor_position = self.cursor_position + 1;
                }
            },
        }
    }

    /// Hands out the text and empties the editor.
    pub fn validate(&mut self) -> (s: String)
        ensures
            s@ == old(self).text@,
            final(self).wf(),
            final(self).text@.len() == 0,
            final(self).cursor_position == 0,
    {
        let s = self.string();
        self.clear();
        s
    }

    /// Loads `s` into the editor with the caret at its end.
    pub fn set_string(&mut self, s: String)
        ensures
            final(self).wf(),
            final(self).text@ == s@,
            final(self).cursor_position == s@.len(),
    {
        let mut chars: Vec<char> = Vec::new();
        for c in it: s.chars()
            invariant
                chars@ == it.seq().subrange(0, it.index() as int),
        {
            chars.push(c);
        }
        self.cursor_position = chars.len();
        self.text = chars;
    }

    /// Empties the editor.
    pub fn clear(&mut self)
        ensures
            final(self).wf(),
            final(self).text@.len() == 0,
            final(self).cursor_position == 0,
    {
        self.text.clear();
        self.cursor_position = 0;
    }
}

} // verus!
