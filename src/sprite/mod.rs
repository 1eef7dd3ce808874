//! Sprite sheets: many sprites laid out in one texture as a grid.
use vstd::prelude::*;

pub mod anim;

verus! {

/// A grid of equally sized sprites in one texture, used for the frames of
/// animations (often a row each) or for the tiles of a tile set.
pub struct SpriteSheet {
    /// Number of frames in one row.
    pub columns: u32,
    /// Number of frames in one column.
    pub rows: u32,
}

impl SpriteSheet {
    /// The column and row of `frame` in the grid, frames counted row by row.
    pub fn cell(&self, frame: u32) -> (r: (u32, u32))
        requires
            self.columns > 0,
            self.rows > 0,
            frame / self.columns < self.rows,
        ensures
            r.0 == frame % self.columns,
            r.1 == frame / self.columns,
            r.0 < self.columns,
            r.1 < self.rows,
    {
        (frame % self.columns, frame / self.columns)
    }
}

} // verus!
