//! Signed positions on a grid.

use vstd::prelude::*;

verus! {

/// A signed grid position: a piece may stand partly outside the field.
#[derive(Clone, Copy, Debug, PartialEq, Eq, Structural)]
pub struct Position {
    pub x: i8,
    pub y: i8,
}

impl Default for Position {
    fn default() -> (p: Self)
        ensures
            p == (Position { x: 0, y: 0 }),
    {
        Position { x: 0, y: 0 }
    }
}

impl Position {
    pub fn move_down(&mut self)
        requires
            old(self).y < i8::MAX,
        ensures
            *final(self) == (Position { x: old(self).x, y: (old(self).y + 1) as i8 }),
    {
        self.y = self.y + 1;
    }

    pub fn move_up(&mut self)
        requires
            old(self).y > i8::MIN,
        ensures
            *final(self) == (Position { x: old(self).x, y: (old(self).y - 1) as i8 }),
    {
        self.y = self.y - 1;
    }

    pub fn move_left(&mut self)
        requires
            old(self).x > i8::MIN,
        ensures
            *final(self) == (Position { x: (old(self).x - 1) as i8, y: old(self).y }),
    {
        self.x = self.x - 1;
    }

    pub fn move_right(&mut self)
        requires
            old(self).x < i8::MAX,
        ensures
            *final(self) == (Position { x: (old(self).x + 1) as i8, y: old(self).y }),
    {
        self.x = self.x + 1;
    }
}

} // verus!
