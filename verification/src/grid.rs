//! The tile grid: a fixed number of tiles laid out in rows of a fixed width.

use vstd::prelude::*;
use vstd::arithmetic::div_mod::{
    lemma_fundamental_div_mod, lemma_fundamental_div_mod_converse, lemma_mod_bound,
};
use crate::error::SimError;
use crate::tile::Tile;

verus! {

/// The row of the tile at `index` in rows of `row_width` tiles.
pub open spec fn row_of(index: int, row_width: int) -> int {
    index / row_width
}

/// The column of the tile at `index` in rows of `row_width` tiles.
pub open spec fn column_of(index: int, row_width: int) -> int {
    index % row_width
}

/// Walking the tiles in index order, the column goes back to 0 and the row goes
/// up by one exactly when the next index is a multiple of the row width;
/// everywhere else the column goes up by one and the row stays. The first tile
/// stands in row 0, column 0.
pub proof fn lemma_row_column_step(index: int, row_width: int)
    requires
        0 <= index,
        0 < row_width,
    ensures
        row_of(0, row_width) == 0 && column_of(0, row_width) == 0,
        0 <= column_of(index, row_width) < row_width,
        (index + 1) % row_width == 0 <==> column_of(index + 1, row_width) == 0,
        (index + 1) % row_width == 0 ==> row_of(index + 1, row_width) == row_of(index, row_width)
            + 1,
        (index + 1) % row_width != 0 ==> row_of(index + 1, row_width) == row_of(index, row_width)
            && column_of(index + 1, row_width) == column_of(index, row_width) + 1,
{
    lemma_fundamental_div_mod(index, row_width);
    lemma_fundamental_div_mod(index + 1, row_width);
    lemma_mod_bound(index, row_width);
    lemma_mod_bound(index + 1, row_width);
    let q = index / row_width;
    let r = index % row_width;
    assert(q * row_width == row_width * q) by (nonlinear_arith);
    if r + 1 < row_width {
        lemma_fundamental_div_mod_converse(index + 1, row_width, q, r + 1);
    } else {
        assert((q + 1) * row_width == row_width * q + row_width) by (nonlinear_arith);
        lemma_fundamental_div_mod_converse(index + 1, row_width, q + 1, 0);
    }
}

/// A fixed-length sequence of tiles with the width of a row. The number of
/// tiles need not be a multiple of the row width: the last row may be partial.
pub struct TileGrid {
    tiles: Vec<Tile>,
    row_width: usize,
}

impl View for TileGrid {
    type V = Seq<usize>;

    /// The sprite index of every tile, in index order.
    closed spec fn view(&self) -> Seq<usize> {
        Seq::new(self.tiles@.len(), |i: int| self.tiles@[i]@)
    }
}

impl TileGrid {
    #[verifier::type_invariant]
    closed spec fn inv(self) -> bool {
        self.row_width > 0
    }

    /// The number of tiles in a full row.
    pub closed spec fn width(&self) -> nat {
        self.row_width as nat
    }

    /// Creates a grid of `len` tiles in rows of `row_width`, every tile
    /// showing `default_sprite`. Rows of no tiles are refused.
    pub fn new(len: usize, row_width: usize, default_sprite: usize) -> (result: Result<
        TileGrid,
        SimError,
    >)
        ensures
            row_width == 0 ==> result == Err::<TileGrid, SimError>(SimError::ZeroRowWidth),
            row_width > 0 ==> result is Ok,
            result matches Ok(grid) ==> {
                &&& grid.width() == row_width
                &&& grid@ == Seq::new(len as nat, |i: int| default_sprite)
            },
    {
        if row_width == 0 {
            return Err(SimError::ZeroRowWidth);
        }
        let mut tile = Tile::new();
        tile.set_sprite(default_sprite);
        let mut tiles: Vec<Tile> = Vec::new();
        let mut count: usize = 0;
        while count < len
            invariant
                count <= len,
                tiles@.len() == count,
                tile@ == default_sprite,
                forall|i: int| 0 <= i < count ==> (#[trigger] tiles@[i])@ == default_sprite,
            decreases len - count,
        {
            tiles.push(tile);
            count = count + 1;
        }
        let grid = TileGrid { tiles, row_width };
        assert(grid@ =~= Seq::new(len as nat, |i: int| default_sprite));
        Ok(grid)
    }

    /// The number of tiles.
    pub fn len(&self) -> (len: usize)
        ensures
            len == self@.len(),
        no_unwind
    {
        self.tiles.len()
    }

    /// The number of tiles in a full row.
    pub fn row_width(&self) -> (row_width: usize)
        ensures
            row_width == self.width(),
            row_width > 0,
    {
        proof {
            use_type_invariant(self);
        }
        self.row_width
    }

    /// The tile at `index`, or `IndexOutOfRange` at or past the end.
    pub fn get(&self, index: usize) -> (result: Result<Tile, SimError>)
        ensures
            index < self@.len() ==> result is Ok && result->Ok_0@ == self@[index as int],
            index >= self@.len() ==> result == Err::<Tile, SimError>(SimError::IndexOutOfRange),
    {
        if index < self.tiles.len() {
            Ok(self.tiles[index])
        } else {
            Err(SimError::IndexOutOfRange)
        }
    }

    /// Makes the tile at `index` show `sprite` and leaves every other tile
    /// alone. At or past the end nothing changes and `IndexOutOfRange` comes back.
    pub fn set_sprite(&mut self, index: usize, sprite: usize) -> (result: Result<(), SimError>)
        ensures
            final(self).width() == old(self).width(),
            index < old(self)@.len() ==> result is Ok && final(self)@ == old(self)@.update(
                index as int,
                sprite,
            ),
            index >= old(self)@.len() ==> result == Err::<(), SimError>(SimError::IndexOutOfRange)
                && final(self)@ == old(self)@,
        no_unwind
    {
        proof {
            use_type_invariant(&*self);
        }
        if index < self.tiles.len() {
            let mut tile = self.tiles[index];
            tile.set_sprite(sprite);
            self.tiles[index] = tile;
            assert(self@ =~= old(self)@.update(index as int, sprite));
            Ok(())
        } else {
            Err(SimError::IndexOutOfRange)
        }
    }

    /// The row and the column of the tile at `index`.
    pub fn row_column(&self, index: usize) -> (position: (usize, usize))
        ensures
            position.0 == row_of(index as int, self.width() as int),
            position.1 == column_of(index as int, self.width() as int),
    {
        proof {
            use_type_invariant(self);
        }
        (index / self.row_width, index % self.row_width)
    }
}

} // verus!
