//! Map tile.

use vstd::prelude::*;

verus! {

/// The smallest unit of the map: the index of the sprite it currently shows.
#[derive(Copy, Clone, Debug, PartialEq, Eq, Structural)]
pub struct Tile {
    sprite: usize,
}

impl View for Tile {
    type V = usize;

    /// The sprite index the tile shows.
    closed spec fn view(&self) -> usize {
        self.sprite
    }
}

impl Tile {
    /// Creates a new tile, showing sprite 0.
    pub fn new() -> (tile: Tile)
        ensures
            tile@ == 0,
    {
        Tile { sprite: 0 }
    }

    /// Sets the sprite value: the index to display from the list of available sprites.
    pub fn set_sprite(&mut self, sprite: usize)
        ensures
            final(self)@ == sprite,
        no_unwind
    {
        self.sprite = sprite;
    }

    /// Returns the sprite value of the tile.
    pub fn get_sprite(&self) -> (sprite: usize)
        ensures
            sprite == self@,
        no_unwind
    {
        self.sprite
    }
}

} // verus!
