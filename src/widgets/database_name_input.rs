//! The input line for the name of the database to open.
use vstd::prelude::*;
use vstd::string::*;
use crate::text::{insert_char, remove_char};

verus! {

/// `index` clamped to `[0, len]`.
pub open spec fn clamped(index: int, len: nat) -> nat {
    if index < 0 {
        0
    } else if index > len {
        len
    } else {
        index as nat
    }
}

/// `e` is `d` with the cursor moved one character right, not past the end.
pub open spec fn cursor_moved_right(d: DatabaseNameInput, e: DatabaseNameInput) -> bool {
    &&& e.database_name == d.database_name
    &&& e.cursor_index == clamped(d.cursor_index + 1int, d.database_name@.len())
}

/// `e` is `d` with the cursor moved one character left, not before the start.
pub open spec fn cursor_moved_left(d: DatabaseNameInput, e: DatabaseNameInput) -> bool {
    &&& e.database_name == d.database_name
    &&& e.cursor_index == clamped(d.cursor_index - 1int, d.database_name@.len())
}

/// `e` is `d` with `c` inserted at the cursor and the cursor moved past it.
pub open spec fn char_entered(d: DatabaseNameInput, c: char, e: DatabaseNameInput) -> bool {
    let k = clamped(d.cursor_index as int, d.database_name@.len());
    &&& e.database_name@ == d.database_name@.insert(k as int, c)
    &&& e.cursor_index == k + 1
}

/// `e` is `d` with the character before the cursor deleted and the cursor
/// moved back over it; with the cursor at the start, `e` is `d`.
pub open spec fn char_deleted(d: DatabaseNameInput, e: DatabaseNameInput) -> bool {
    let k = clamped(d.cursor_index as int, d.database_name@.len());
    &&& k == 0 ==> e.database_name == d.database_name && e.cursor_index == 0
    &&& k > 0 ==> e.database_name@ == d.database_name@.remove(k - 1) && e.cursor_index == k - 1
}

/// `e` holds no text, with the cursor at the start.
pub open spec fn emptied(e: DatabaseNameInput) -> bool {
    &&& e.database_name@.len() == 0
    &&& e.cursor_index == 0
}

/// A one-line text input with a cursor at a character index. The cursor is
/// kept within the text; a cursor set past the end counts as at the end.
pub struct DatabaseNameInput {
    pub database_name: String,
    pub cursor_index: usize,
}

impl DatabaseNameInput {
    pub fn new() -> (r: DatabaseNameInput)
        ensures
            r.database_name@.len() == 0,
            r.cursor_index == 0,
    {
        DatabaseNameInput { database_name: String::new(), cursor_index: 0 }
    }

    /// Moves the cursor one character right, not past the end of the text.
    pub fn move_cursor_right(&mut self)
        ensures
            cursor_moved_right(*old(self), *final(self)),
    {
        let moved = if self.cursor_index < usize::MAX {
            self.cursor_index + 1
        } else {
            usize::MAX
        };
        self.cursor_index = self.clamp_index(moved);
    }

    /// Moves the cursor one character left, not before the start of the text.
    pub fn move_cursor_left(&mut self)
        ensures
            cursor_moved_left(*old(self), *final(self)),
    {
        let moved = if self.cursor_index > 0 {
            self.cursor_index - 1
        } else {
            0
        };
        self.cursor_index = self.clamp_index(moved);
    }

    /// Inserts `character` at the cursor, then moves the cursor past it.
    pub fn enter_char(&mut self, character: char)
        ensures
            char_entered(*old(self), character, *final(self)),
    {
        let k = self.clamp_index(self.cursor_index);
        self.database_name = insert_char(self.database_name.as_str(), k, character);
        self.cursor_index = k;
        self.move_cursor_right();
    }

    /// Deletes the character before the cursor and moves the cursor back over
    /// it; with the cursor at the start, nothing changes.
    pub fn delete_char(&mut self)
        ensures
            char_deleted(*old(self), *final(self)),
    {
        let k = self.clamp_index(self.cursor_index);
        if k == 0 {
            self.cursor_index = 0;
            return;
        }
        self.database_name = remove_char(self.database_name.as_str(), k - 1);
        self.cursor_index = k;
        self.move_cursor_left();
    }

    /// Empties the text and puts the cursor at the start.
    pub fn reset(&mut self)
        ensures
            emptied(*final(self)),
    {
        self.database_name = String::new();
        self.cursor_index = 0;
    }

    /// `index` clamped to the text's character count.
    fn clamp_index(&self, index: usize) -> (r: usize)
        ensures
            self.database_name@.len() <= usize::MAX,
            r == clamped(index as int, self.database_name@.len()),
    {
        let char_count = self.database_name.as_str().unicode_len();
        if index > char_count {
            char_count
        } else {
            index
        }
    }
}

} // verus!
