use vstd::prelude::*;

use crate::attr::{plain_attr, Attr};

verus! {

/// Cursor shape for rendering.
#[derive(Debug, Clone, Copy, PartialEq, Eq, Structural)]
pub enum CursorShape {
    Block,
    Underline,
    Bar,
}

impl Default for CursorShape {
    fn default() -> (s: Self)
        ensures
            s == CursorShape::Block,
    {
        CursorShape::Block
    }
}

/// Position and attributes remembered by a cursor save (ESC 7 / DECSC).
#[derive(Debug, Clone, Copy, PartialEq, Eq, Structural)]
pub struct SavedCursor {
    pub col: usize,
    pub row: usize,
    pub attr: Attr,
}

/// Terminal cursor state.
#[derive(Debug, Clone, Copy)]
pub struct Cursor {
    /// Column (0-indexed).
    pub col: usize,
    /// Row (0-indexed).
    pub row: usize,
    /// Current text attributes applied to new characters.
    pub attr: Attr,
    /// Cursor shape.
    pub shape: CursorShape,
    /// Whether the cursor is visible.
    pub visible: bool,
    /// Saved cursor state (for ESC 7 / ESC 8).
    pub saved: Option<SavedCursor>,
}

/// The cursor of a fresh terminal: home position, plain attributes,
/// block shape, visible, nothing saved.
pub open spec fn home_cursor() -> Cursor {
    Cursor {
        col: 0,
        row: 0,
        attr: plain_attr(),
        shape: CursorShape::Block,
        visible: true,
        saved: None,
    }
}

impl Default for Cursor {
    fn default() -> (c: Self)
        ensures
            c == home_cursor(),
    {
        Cursor {
            col: 0,
            row: 0,
            attr: Attr::default(),
            shape: CursorShape::default(),
            visible: true,
            saved: None,
        }
    }
}

impl Cursor {
    /// The cursor after a save: position and attributes remembered,
    /// everything else unchanged.
    pub open spec fn after_save(self) -> Cursor {
        Cursor { saved: Some(SavedCursor { col: self.col, row: self.row, attr: self.attr }), ..self }
    }

    /// The cursor after a restore: if something was saved, its position and
    /// attributes come back and the saved slot is emptied; otherwise nothing
    /// changes.
    pub open spec fn after_restore(self) -> Cursor {
        match self.saved {
            Some(s) => Cursor { col: s.col, row: s.row, attr: s.attr, saved: None, ..self },
            None => self,
        }
    }

    /// Save current cursor position and attributes.
    pub fn save(&mut self)
        ensures
            *final(self) == old(self).after_save(),
    {
        self.saved = Some(SavedCursor { col: self.col, row: self.row, attr: self.attr });
    }

    /// Restore previously saved cursor position and attributes.
    pub fn restore(&mut self)
        ensures
            *final(self) == old(self).after_restore(),
    {
        let saved = self.saved;
        if let Some(s) = saved {
            self.saved = None;
            self.col = s.col;
            self.row = s.row;
            self.attr = s.attr;
        }
    }
}

/// A restore right after a save brings back the position and attributes
/// the cursor had, and leaves nothing saved.
pub proof fn lemma_restore_after_save(c: Cursor)
    ensures
        c.after_save().after_restore() == (Cursor { saved: None, ..c }),
{
}

} // verus!
