//! The playfield: a fixed grid of tiles whose empty cells carry the gray
//! background.

use vstd::prelude::*;
use crate::canvas::{overlay, Canvas};
use crate::color::Color;
use crate::position::Position;
use crate::texture::{copy_row, filled_grid, grid_shaped, Dimensions, Grid, Texture};
use crate::tile::{background_tile, Tile};

verus! {

/// Columns of the playfield.
pub const FIELD_WIDTH: usize = 10;

/// Rows of the playfield.
pub const FIELD_HEIGHT: usize = 20;

/// The cell of `g` at column `x` and row `y`; none outside the grid.
pub open spec fn tile_at(g: Grid, x: int, y: int) -> Option<Tile> {
    if 0 <= y < g.len() && 0 <= x < g[y].len() {
        g[y][x]
    } else {
        None
    }
}

/// No tile, or a tile with the empty (gray) background.
pub open spec fn cell_free(cell: Option<Tile>) -> bool {
    match cell {
        Some(t) => t.background == Color::Gray,
        None => true,
    }
}

/// Column `x`, row `y` of `g` is free; every position outside `g` is.
pub open spec fn free_at(g: Grid, x: int, y: int) -> bool {
    cell_free(tile_at(g, x, y))
}

/// Every cell of the row holds a tile whose background is not the empty one.
pub open spec fn row_full(row: Seq<Option<Tile>>) -> bool {
    forall|j: int| 0 <= j < row.len() ==> !cell_free(#[trigger] row[j])
}

/// A row of `width` empty tiles.
pub open spec fn empty_row(width: nat) -> Seq<Option<Tile>> {
    Seq::new(width, |j: int| Some(background_tile(Color::Gray)))
}

/// One empty row, as wide as it was, for each full row of `g`.
pub open spec fn emptied_full_rows(g: Grid) -> Grid
    decreases g.len(),
{
    if g.len() == 0 {
        Seq::empty()
    } else if row_full(g.last()) {
        emptied_full_rows(g.drop_last()).push(empty_row(g.last().len()))
    } else {
        emptied_full_rows(g.drop_last())
    }
}

/// The rows of `g` that are not full, in their order.
pub open spec fn kept_rows(g: Grid) -> Grid
    decreases g.len(),
{
    if g.len() == 0 {
        Seq::empty()
    } else if row_full(g.last()) {
        kept_rows(g.drop_last())
    } else {
        kept_rows(g.drop_last()).push(g.last())
    }
}

/// The full rows emptied and moved to the top, above the other rows.
pub open spec fn cleared_grid(g: Grid) -> Grid {
    emptied_full_rows(g) + kept_rows(g)
}

/// A tile of `piece` replaces a tile of the field; the field's absent cells
/// stay absent.
pub open spec fn stamp_cell(cell: Option<Tile>, piece: Option<Tile>) -> Option<Tile> {
    if cell is Some && piece is Some {
        piece
    } else {
        cell
    }
}

/// `g` with the tiles of `piece` laid on it, the piece's top-left corner at
/// column `x`, row `y`; what falls outside `g` is dropped.
pub open spec fn stamp_grid(g: Grid, piece: Grid, x: int, y: int) -> Grid {
    Seq::new(
        g.len(),
        |i: int| Seq::new(g[i].len(), |j: int| stamp_cell(g[i][j], tile_at(piece, j - x, i - y))),
    )
}

/// The empty playfield.
pub open spec fn empty_field() -> Grid {
    filled_grid(FIELD_WIDTH as nat, FIELD_HEIGHT as nat, Some(background_tile(Color::Gray)))
}

/// The view of a vector of rows.
pub open spec fn rows_view(rows: Seq<Vec<Option<Tile>>>) -> Grid {
    rows.map_values(|row: Vec<Option<Tile>>| row@)
}

/// The emptied and the kept rows together are as many as the rows of `g`.
pub proof fn lemma_cleared_count(g: Grid)
    ensures
        emptied_full_rows(g).len() + kept_rows(g).len() == g.len(),
    decreases g.len(),
{
    if g.len() > 0 {
        lemma_cleared_count(g.drop_last());
    }
}

/// Of the rows of a grid of uniform width, the emptied ones are empty rows of the grid's width, the kept ones keep
/// that width, and no cell becomes absent.
pub proof fn lemma_cleared_shape(g: Grid, width: nat)
    requires
        forall|i: int| 0 <= i < g.len() ==> #[trigger] g[i].len() == width,
    ensures
        emptied_full_rows(g).len() + kept_rows(g).len() == g.len(),
        forall|i: int|
            0 <= i < emptied_full_rows(g).len() ==> #[trigger] emptied_full_rows(g)[i]
                == empty_row(width),
        forall|i: int|
            0 <= i < kept_rows(g).len() ==> #[trigger] kept_rows(g)[i].len() == width,
        (forall|i: int, j: int| 0 <= i < g.len() && 0 <= j < width ==> (#[trigger] g[i][j]) is Some)
            ==> (forall|i: int, j: int|
            0 <= i < kept_rows(g).len() && 0 <= j < width ==> (#[trigger] kept_rows(g)[i][j]) is Some),
        grid_shaped(cleared_grid(g), width as int, g.len() as int),
    decreases g.len(),
{
    if g.len() > 0 {
        lemma_cleared_shape(g.drop_last(), width);
        let k = kept_rows(g);
        let kd = kept_rows(g.drop_last());
        if (forall|i: int, j: int| 0 <= i < g.len() && 0 <= j < width ==> (#[trigger] g[i][j]) is Some) {
            assert forall|i: int, j: int|
                0 <= i < g.drop_last().len() && 0 <= j < width implies (
                #[trigger] g.drop_last()[i][j]) is Some by {
                assert(g.drop_last()[i] == g[i]);
            }
            assert forall|i: int, j: int| 0 <= i < k.len() && 0 <= j < width implies (
            #[trigger] k[i][j]) is Some by {
                if i < kd.len() {
                    assert(k[i] == kd[i]);
                } else {
                    assert(k[i] == g[g.len() - 1]);
                }
            }
        }
    }
    let c = cleared_grid(g);
    let e = emptied_full_rows(g);
    assert forall|i: int| 0 <= i < c.len() implies #[trigger] c[i].len() == width by {
        if i < e.len() {
            assert(c[i] == e[i]);
        } else {
            assert(c[i] == kept_rows(g)[i - e.len()]);
        }
    }
}

/// A full row is found: at least one row is cleared, the top row is then an
/// empty row, and the grid keeps its number of rows.
pub proof fn lemma_full_row_cleared(g: Grid, i: int)
    requires
        forall|k: int| 0 <= k < g.len() ==> #[trigger] g[k].len() == FIELD_WIDTH,
        0 <= i < g.len(),
        row_full(g[i]),
    ensures
        emptied_full_rows(g).len() >= 1,
        cleared_grid(g).len() == g.len(),
        cleared_grid(g)[0] == empty_row(FIELD_WIDTH as nat),
    decreases g.len(),
{
    lemma_cleared_shape(g, FIELD_WIDTH as nat);
    if i < g.len() - 1 {
        assert(g.drop_last()[i] == g[i]);
        lemma_full_row_cleared(g.drop_last(), i);
    }
    assert(cleared_grid(g)[0] == emptied_full_rows(g)[0]);
}

/// Outside the grid there is no tile, and every position is free.
pub proof fn lemma_outside_free(g: Grid, x: int, y: int)
    requires
        grid_shaped(g, FIELD_WIDTH as int, FIELD_HEIGHT as int),
        !(0 <= x < FIELD_WIDTH && 0 <= y < FIELD_HEIGHT),
    ensures
        tile_at(g, x, y) is None,
        free_at(g, x, y),
{
}

/// The playfield: a texture whose every cell holds a tile.
pub struct Field {
    pub texture: Texture,
}

impl Default for Field {
    fn default() -> (f: Self)
        ensures
            f.wf(),
            f.texture@ == empty_field(),
    {
        Field {
            texture: Texture::new_background(
                Dimensions { width: FIELD_WIDTH, height: FIELD_HEIGHT },
                Color::Gray,
            ),
        }
    }
}

impl Field {
    /// The field is 10 by 20 and holds a tile in every cell.
    pub open spec fn wf(&self) -> bool {
        &&& self.texture.wf()
        &&& self.texture.dimensions == (Dimensions { width: FIELD_WIDTH, height: FIELD_HEIGHT })
        &&& forall|i: int, j: int|
            0 <= i < FIELD_HEIGHT && 0 <= j < FIELD_WIDTH ==> (#[trigger] self.texture@[i][j]) is Some
    }

    /// The position is free.
    pub open spec fn free(&self, p: Position) -> bool {
        free_at(self.texture@, p.x as int, p.y as int)
    }

    /// Draws the field with its top-left corner at `position`.
    pub fn render_at(&self, canvas: &mut Canvas, position: Position)
        ensures
            final(canvas)@ == overlay(
                old(canvas)@,
                self.texture@,
                position.x as int,
                position.y as int,
            ),
            final(canvas).dimensions == old(canvas).dimensions,
            old(canvas).wf() ==> final(canvas).wf(),
    {
        canvas.add_texture(self.texture.duplicate(), &position);
    }

    pub fn get_tile_at_pos(&self, position: &Position) -> (r: Option<&Tile>)
        ensures
            r is Some == tile_at(self.texture@, position.x as int, position.y as int) is Some,
            r is Some ==> Some(*r.unwrap()) == tile_at(
                self.texture@,
                position.x as int,
                position.y as int,
            ),
    {
        if position.y < 0 || position.x < 0 {
            return None;
        }
        let y = position.y as usize;
        let x = position.x as usize;
        if y < self.texture.pixels.len() {
            let row = &self.texture.pixels[y];
            if x < row.len() {
                match &row[x] {
                    Some(tile) => {
                        return Some(tile);
                    },
                    None => {},
                }
            }
        }
        None
    }

    pub fn get_tile_at_pos_mut(&mut self, position: &Position) -> (r: Option<&mut Tile>)
        ensures
            r is Some == tile_at(old(self).texture@, position.x as int, position.y as int) is Some,
            r is None ==> *final(self) == *old(self),
            r is Some ==> {
                &&& Some(*r.unwrap()) == tile_at(
                    old(self).texture@,
                    position.x as int,
                    position.y as int,
                )
                &&& final(self).texture.dimensions == old(self).texture.dimensions
                &&& final(self).texture@ == old(self).texture@.update(
                    position.y as int,
                    old(self).texture@[position.y as int].update(
                        position.x as int,
                        Some(*final(r.unwrap())),
                    ),
                )
            },
    {
        if position.y < 0 || position.x < 0 {
            return None;
        }
        let y = position.y as usize;
        let x = position.x as usize;
        if y < self.texture.pixels.len() && x < self.texture.pixels[y].len()
            && self.texture.pixels[y][x].is_some() {
            let row = &mut self.texture.pixels[y];
            match &mut row[x] {
                Some(tile) => Some(tile),
                None => None,
            }
        } else {
            None
        }
    }

    pub fn all_positions_free(&self, positions: &[Position]) -> (r: bool)
        ensures
            r == forall|i: int| 0 <= i < positions@.len() ==> self.free(#[trigger] positions@[i]),
    {
        let mut i: usize = 0;
        while i < positions.len()
            invariant
                i <= positions@.len(),
                forall|k: int| 0 <= k < i ==> self.free(#[trigger] positions@[k]),
            decreases positions@.len() - i,
        {
            if !self.position_free(&positions[i]) {
                return false;
            }
            i = i + 1;
        }
        true
    }

    pub fn position_free(&self, position: &Position) -> (r: bool)
        ensures
            r == self.free(*position),
    {
        match self.get_tile_at_pos(position) {
            Some(tile) => tile.background == Color::Gray,
            None => true,
        }
    }

    fn row_is_full(row: &Vec<Option<Tile>>) -> (r: bool)
        ensures
            r == row_full(row@),
    {
        let mut j: usize = 0;
        while j < row.len()
            invariant
                j <= row@.len(),
                forall|k: int| 0 <= k < j ==> !cell_free(#[trigger] row@[k]),
            decreases row@.len() - j,
        {
            match &row[j] {
                Some(tile) => {
                    if tile.background == Color::Gray {
                        return false;
                    }
                },
                None => {
                    return false;
                },
            }
            j = j + 1;
        }
        true
    }

    fn clear_row(row: &mut Vec<Option<Tile>>)
        ensures
            final(row)@ == empty_row(old(row)@.len()),
    {
        let empty = Some(Tile::new_background(Color::Gray));
        let mut j: usize = 0;
        while j < row.len()
            invariant
                j <= row@.len(),
                row@.len() == old(row)@.len(),
                empty == Some(background_tile(Color::Gray)),
                forall|k: int| 0 <= k < j ==> #[trigger] row@[k] == empty,
            decreases row@.len() - j,
        {
            row[j] = empty;
            j = j + 1;
        }
        assert(row@ =~= empty_row(old(row)@.len()));
    }

    /// Empties every full row and moves it to the top, keeping the order of
    /// the other rows; returns the number of rows cleared.
    pub fn try_delete_lines(&mut self) -> (n: usize)
        ensures
            n == emptied_full_rows(old(self).texture@).len(),
            final(self).texture@ == cleared_grid(old(self).texture@),
            final(self).texture.dimensions == old(self).texture.dimensions,
            old(self).wf() ==> final(self).wf(),
            n <= old(self).texture@.len(),
    {
        let ghost g = self.texture@;
        let mut emptied: Vec<Vec<Option<Tile>>> = Vec::new();
        let mut kept: Vec<Vec<Option<Tile>>> = Vec::new();
        let mut i: usize = 0;
        while i < self.texture.pixels.len()
            invariant
                g == self.texture@,
                i <= g.len(),
                rows_view(emptied@) == emptied_full_rows(g.take(i as int)),
                rows_view(kept@) == kept_rows(g.take(i as int)),
            decreases g.len() - i,
        {
            assert(g.take(i + 1).drop_last() =~= g.take(i as int));
            assert(g.take(i + 1).last() == g[i as int]);
            let mut row = copy_row(&self.texture.pixels[i]);
            if Self::row_is_full(&row) {
                Self::clear_row(&mut row);
                emptied.push(row);
                assert(rows_view(emptied@) =~= emptied_full_rows(g.take(i + 1)));
            } else {
                kept.push(row);
                assert(rows_view(kept@) =~= kept_rows(g.take(i + 1)));
            }
            i = i + 1;
        }
        assert(g.take(g.len() as int) =~= g);
        let n = emptied.len();
        emptied.append(&mut kept);
        assert(rows_view(emptied@) =~= cleared_grid(g));
        self.texture.pixels = emptied;
        proof {
            lemma_cleared_count(g);
            if old(self).wf() {
                lemma_cleared_shape(g, FIELD_WIDTH as nat);
                let c = cleared_grid(g);
                let e = emptied_full_rows(g);
                assert forall|i: int, j: int|
                    0 <= i < FIELD_HEIGHT && 0 <= j < FIELD_WIDTH implies (
                    #[trigger] c[i][j]) is Some by {
                    if i < e.len() {
                        assert(c[i] == e[i]);
                    } else {
                        assert(c[i] == kept_rows(g)[i - e.len()]);
                    }
                }
            }
        }
        n
    }

    /// Lays the tiles of `texture` on the field, its top-left corner at
    /// `position`; what falls outside the field is dropped.
    pub fn add_to_texture(&mut self, texture: Texture, position: Position)
        requires
            old(self).wf(),
        ensures
            final(self).wf(),
            final(self).texture@ == stamp_grid(
                old(self).texture@,
                texture@,
                position.x as int,
                position.y as int,
            ),
    {
        let ghost g = self.texture@;
        let ghost target = stamp_grid(g, texture@, position.x as int, position.y as int);
        let mut i: usize = 0;
        while i < FIELD_HEIGHT
            invariant
                self.wf(),
                g == old(self).texture@,
                grid_shaped(g, FIELD_WIDTH as int, FIELD_HEIGHT as int),
                forall|r: int, c: int|
                    0 <= r < FIELD_HEIGHT && 0 <= c < FIELD_WIDTH ==> (#[trigger] g[r][c]) is Some,
                target == stamp_grid(g, texture@, position.x as int, position.y as int),
                i <= FIELD_HEIGHT,
                forall|r: int, c: int|
                    0 <= r < FIELD_HEIGHT && 0 <= c < FIELD_WIDTH ==> #[trigger] self.texture@[r][c]
                        == if r < i {
                        target[r][c]
                    } else {
                        g[r][c]
                    },
            decreases FIELD_HEIGHT - i,
        {
            let mut j: usize = 0;
            while j < FIELD_WIDTH
                invariant
                    self.wf(),
                    g == old(self).texture@,
                    grid_shaped(g, FIELD_WIDTH as int, FIELD_HEIGHT as int),
                    forall|r: int, c: int|
                        0 <= r < FIELD_HEIGHT && 0 <= c < FIELD_WIDTH ==> (#[trigger] g[r][c]) is Some,
                    target == stamp_grid(g, texture@, position.x as int, position.y as int),
                    i < FIELD_HEIGHT,
                    j <= FIELD_WIDTH,
                    forall|r: int, c: int|
                        0 <= r < FIELD_HEIGHT && 0 <= c < FIELD_WIDTH ==> #[trigger] self.texture@[r][c]
                            == if r < i || (r == i && c < j) {
                            target[r][c]
                        } else {
                            g[r][c]
                        },
                decreases FIELD_WIDTH - j,
            {
                let ty: i16 = i as i16 - position.y as i16;
                let tx: i16 = j as i16 - position.x as i16;
                let ghost before = self.texture@;
                assert(before[i as int].len() == FIELD_WIDTH);
                assert(target[i as int][j as int] == stamp_cell(
                    g[i as int][j as int],
                    tile_at(texture@, tx as int, ty as int),
                ));
                if ty >= 0 && tx >= 0 && (ty as usize) < texture.pixels.len() && (tx as usize)
                    < texture.pixels[ty as usize].len() {
                    match texture.pixels[ty as usize][tx as usize] {
                        Some(t) => {
                            assert(texture@[ty as int][tx as int] == Some(t));
                            let row = &mut self.texture.pixels[i];
                            row.set(j, Some(t));
                            assert(self.texture@ =~= before.update(
                                i as int,
                                before[i as int].update(j as int, Some(t)),
                            ));
                        },
                        None => {
                            assert(texture@[ty as int][tx as int] is None);
                        },
                    }
                }
                assert(self.texture@[i as int][j as int] == target[i as int][j as int]);
                j = j + 1;
            }
            i = i + 1;
        }
        assert forall|r: int| 0 <= r < FIELD_HEIGHT implies #[trigger] self.texture@[r] =~= target[r] by {
            assert(self.texture@[r].len() == FIELD_WIDTH);
            assert(g[r].len() == FIELD_WIDTH);
        }
        assert(self.texture@ =~= target);
    }

    pub fn dimensions(&self) -> (d: &Dimensions)
        ensures
            *d == self.texture.dimensions,
    {
        &self.texture.dimensions
    }
}

} // verus!
