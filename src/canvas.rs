//! A terminal-sized buffer of tiles that textures are laid on, serialized to
//! a stream of escape sequences.

use vstd::prelude::*;
use vstd::string::{StrSliceExecFns, StringExecFns};
use crate::ansi::{crossterm_move_to, cursor_position_code, termion_goto};
use crate::color::Color;
use crate::field::tile_at;
use crate::position::Position;
use crate::texture::{Dimensions, Grid, Texture};
use crate::tile::{background_code, default_tile, diff_code, foreground_code, separate_code, Tile};

verus! {

/// The canvas's rows given as sequences of tiles.
pub type Rows = Seq<Seq<Tile>>;

/// The rows with every tile reset to the default tile.
pub open spec fn blank_rows(rows: Rows) -> Rows {
    Seq::new(rows.len(), |i: int| Seq::new(rows[i].len(), |j: int| default_tile()))
}

/// `rows` with the tiles of `texture` laid on them, its top-left corner at
/// column `x`, row `y`; absent tiles of the texture, and what falls outside
/// the rows, change nothing.
pub open spec fn overlay(rows: Rows, texture: Grid, x: int, y: int) -> Rows {
    Seq::new(
        rows.len(),
        |i: int|
            Seq::new(
                rows[i].len(),
                |j: int|
                    match tile_at(texture, j - x, i - y) {
                        Some(t) => t,
                        None => rows[i][j],
                    },
            ),
    )
}

/// The characters of `text` as tiles of the given colors.
pub open spec fn text_row(s: Seq<char>, background: Color, foreground: Color) -> Seq<Option<Tile>> {
    Seq::new(s.len(), |j: int| Some(character_tile(s[j], background, foreground)))
}

/// A glyph in the given colors.
pub open spec fn character_tile(c: char, background: Color, foreground: Color) -> Tile {
    Tile { foreground, background, text: c }
}

/// A one-row texture that writes `text` in the given colors.
pub open spec fn text_grid(text: Seq<char>, background: Color, foreground: Color) -> Grid {
    seq![text_row(text, background, foreground)]
}

/// Text in the theme's colors: orange on black.
pub open spec fn themed_text_grid(text: Seq<char>) -> Grid {
    text_grid(text, Color::Black, Color::Orange)
}

/// The lines written one below the other from column `x`, row `y` down.
pub open spec fn paragraph(rows: Rows, lines: Seq<&str>, x: int, y: int) -> Rows
    decreases lines.len(),
{
    if lines.len() == 0 {
        rows
    } else {
        overlay(
            paragraph(rows, lines.drop_last(), x, y),
            themed_text_grid(lines.last()@),
            x,
            y + lines.len() - 1,
        )
    }
}

/// The rows one after the other.
pub open spec fn concat_rows(rows: Rows) -> Seq<Tile>
    decreases rows.len(),
{
    if rows.len() == 0 {
        Seq::empty()
    } else {
        concat_rows(rows.drop_last()) + rows.last()
    }
}

/// Each tile drawn with only the color changes from the tile before it; the
/// first one is compared with the default tile.
pub open spec fn scan_code(cells: Seq<Tile>) -> Seq<char>
    decreases cells.len(),
{
    if cells.len() == 0 {
        Seq::empty()
    } else {
        scan_code(cells.drop_last()) + diff_code(
            cells.last(),
            if cells.len() == 1 {
                default_tile()
            } else {
                cells[cells.len() - 2]
            },
        )
    }
}

/// Each tile drawn with both of its colors.
pub open spec fn full_code(cells: Seq<Tile>) -> Seq<char>
    decreases cells.len(),
{
    if cells.len() == 0 {
        Seq::empty()
    } else {
        full_code(cells.drop_last()) + separate_code(cells.last())
    }
}

/// A frame: the cursor sent home, the default colors set, then every tile in
/// row-major order with only the color changes it needs.
pub open spec fn frame_code(rows: Rows) -> Seq<char> {
    cursor_position_code(1, 1) + background_code(Color::Black) + foreground_code(Color::White)
        + scan_code(concat_rows(rows))
}

/// A frame drawn with both colors of every tile.
pub open spec fn full_frame_code(rows: Rows) -> Seq<char> {
    cursor_position_code(1, 1) + full_code(concat_rows(rows))
}

/// A buffer of tiles as large as the terminal.
#[derive(Debug, Clone)]
pub struct Canvas {
    /// The size, fixed when the canvas is made.
    pub dimensions: Dimensions,
    /// The tiles, row by row.
    pub rows: Vec<Vec<Tile>>,
    /// The text of the last frame.
    pub buffer: String,
}

impl View for Canvas {
    type V = Rows;

    open spec fn view(&self) -> Rows {
        self.rows@.map_values(|row: Vec<Tile>| row@)
    }
}

impl Canvas {
    /// The canvas has as many rows and columns as its dimensions say.
    pub open spec fn wf(&self) -> bool {
        &&& self@.len() == self.dimensions.height
        &&& forall|i: int| 0 <= i < self@.len() ==> #[trigger] self@[i].len() == self.dimensions.width
    }

    /// A canvas of the given size, every tile the default one.
    pub fn new(dimensions: Dimensions) -> (c: Self)
        ensures
            c.dimensions == dimensions,
            c.wf(),
            c@ == Seq::new(
                dimensions.height as nat,
                |i: int| Seq::new(dimensions.width as nat, |j: int| default_tile()),
            ),
    {
        let mut rows: Vec<Vec<Tile>> = Vec::new();
        let mut i: usize = 0;
        while i < dimensions.height
            invariant
                i <= dimensions.height,
                rows@.len() == i,
                forall|k: int|
                    0 <= k < i ==> #[trigger] rows@[k]@ == Seq::new(
                        dimensions.width as nat,
                        |j: int| default_tile(),
                    ),
            decreases dimensions.height - i,
        {
            let mut row: Vec<Tile> = Vec::new();
            let mut j: usize = 0;
            while j < dimensions.width
                invariant
                    j <= dimensions.width,
                    row@ == Seq::new(j as nat, |k: int| default_tile()),
                decreases dimensions.width - j,
            {
                row.push(Tile::default());
                j = j + 1;
                assert(row@ =~= Seq::new(j as nat, |k: int| default_tile()));
            }
            rows.push(row);
            i = i + 1;
        }
        let c = Canvas { dimensions, rows, buffer: String::new() };
        assert(c@ =~= Seq::new(
            dimensions.height as nat,
            |i: int| Seq::new(dimensions.width as nat, |j: int| default_tile()),
        ));
        c
    }

    fn set_tile(&mut self, i: usize, j: usize, tile: Tile)
        requires
            i < old(self)@.len(),
            j < old(self)@[i as int].len(),
        ensures
            final(self)@ == old(self)@.update(i as int, old(self)@[i as int].update(j as int, tile)),
            final(self).dimensions == old(self).dimensions,
    {
        let row = &mut self.rows[i];
        row.set(j, tile);
        assert(self@ =~= old(self)@.update(i as int, old(self)@[i as int].update(j as int, tile)));
    }

    /// Resets every tile to the default one.
    pub fn clear(&mut self)
        ensures
            final(self)@ == blank_rows(old(self)@),
            final(self).dimensions == old(self).dimensions,
            old(self).wf() ==> final(self).wf(),
    {
        let ghost start = self@;
        let mut i: usize = 0;
        while i < self.rows.len()
            invariant
                i <= self@.len(),
                self.dimensions == old(self).dimensions,
                start == old(self)@,
                self@.len() == start.len(),
                forall|k: int|
                    0 <= k < self@.len() ==> #[trigger] self@[k] == if k < i {
                        blank_rows(start)[k]
                    } else {
                        start[k]
                    },
            decreases self@.len() - i,
        {
            let ghost before = self@;
            let mut j: usize = 0;
            while j < self.rows[i].len()
                invariant
                    i < self@.len(),
                    self.dimensions == old(self).dimensions,
                    self@.len() == before.len(),
                    j <= self@[i as int].len(),
                    self@[i as int].len() == before[i as int].len(),
                    forall|k: int| 0 <= k < self@.len() && k != i ==> #[trigger] self@[k] == before[k],
                    forall|l: int|
                        0 <= l < self@[i as int].len() ==> #[trigger] self@[i as int][l] == if l < j {
                            default_tile()
                        } else {
                            before[i as int][l]
                        },
                decreases self@[i as int].len() - j,
            {
                self.set_tile(i, j, Tile::default());
                j = j + 1;
            }
            assert(self@[i as int] =~= blank_rows(start)[i as int]);
            i = i + 1;
        }
        assert(self@ =~= blank_rows(start));
    }

    /// Lays the tiles of `texture` on the canvas, its top-left corner at
    /// `position`. Rows and columns of the texture above or left of the
    /// canvas are skipped, what lies beyond it is dropped, and absent tiles
    /// leave the canvas as it was.
    pub fn add_texture(&mut self, texture: Texture, position: &Position)
        ensures
            final(self)@ == overlay(old(self)@, texture@, position.x as int, position.y as int),
            final(self).dimensions == old(self).dimensions,
            old(self).wf() ==> final(self).wf(),
    {
        let ghost start = self@;
        let ghost target = overlay(start, texture@, position.x as int, position.y as int);
        let start_row: usize = if position.y < 0 { 0 } else { position.y as usize };
        let skip_rows: usize = if position.y < 0 { (-(position.y as i16)) as usize } else { 0 };
        let start_column: usize = if position.x < 0 { 0 } else { position.x as usize };
        let skip_columns: usize = if position.x < 0 { (-(position.x as i16)) as usize } else { 0 };
        let canvas_rows = self.rows.len();
        let texture_rows = texture.pixels.len();
        let n_rows: usize = if start_row < canvas_rows && skip_rows < texture_rows {
            let a = canvas_rows - start_row;
            let b = texture_rows - skip_rows;
            if a < b { a } else { b }
        } else {
            0
        };
        let mut k: usize = 0;
        while k < n_rows
            invariant
                self.rows@.len() == start.len(),
                canvas_rows == start.len(),
                texture_rows == texture@.len(),
                self.dimensions == old(self).dimensions,
                start == old(self)@,
                target == overlay(start, texture@, position.x as int, position.y as int),
                start_row as int - skip_rows as int == position.y as int,
                start_column as int - skip_columns as int == position.x as int,
                start_row == 0 || skip_rows == 0,
                start_column == 0 || skip_columns == 0,
                n_rows == 0 || (start_row + n_rows <= start.len() && skip_rows + n_rows
                    <= texture@.len()),
                n_rows == 0 ==> (start_row >= start.len() || skip_rows >= texture@.len()),
                n_rows > 0 ==> (start_row + n_rows == start.len() || skip_rows + n_rows
                    == texture@.len()),
                k <= n_rows,
                self@.len() == start.len(),
                forall|i: int| 0 <= i < start.len() ==> #[trigger] self@[i].len() == start[i].len(),
                forall|i: int, j: int|
                    0 <= i < start.len() && 0 <= j < start[i].len() ==> #[trigger] self@[i][j]
                        == if i < start_row + k {
                        target[i][j]
                    } else {
                        start[i][j]
                    },
            decreases n_rows - k,
        {
            let ci = start_row + k;
            let ti = skip_rows + k;
            assert(self@[ci as int] == self.rows@[ci as int]@);
            let canvas_width = self.rows[ci].len();
            let texture_width = texture.pixels[ti].len();
            let n_columns: usize = if start_column < canvas_width && skip_columns < texture_width {
                let a = canvas_width - start_column;
                let b = texture_width - skip_columns;
                if a < b { a } else { b }
            } else {
                0
            };
            let mut l: usize = 0;
            while l < n_columns
                invariant
                    self.dimensions == old(self).dimensions,
                    start == old(self)@,
                    target == overlay(start, texture@, position.x as int, position.y as int),
                    start_row as int - skip_rows as int == position.y as int,
                    start_column as int - skip_columns as int == position.x as int,
                    start_column == 0 || skip_columns == 0,
                    ci == start_row + k,
                    ti == skip_rows + k,
                    ci < start.len(),
                    ti < texture@.len(),
                    canvas_width == start[ci as int].len(),
                    texture_width == texture@[ti as int].len(),
                    n_columns == 0 || (start_column + n_columns <= canvas_width && skip_columns
                        + n_columns <= texture_width),
                    l <= n_columns,
                    self@.len() == start.len(),
                    forall|i: int| 0 <= i < start.len() ==> #[trigger] self@[i].len() == start[i].len(),
                    forall|i: int, j: int|
                        0 <= i < start.len() && 0 <= j < start[i].len() ==> #[trigger] self@[i][j]
                            == if i < ci || (i == ci && start_column <= j < start_column + l) {
                            target[i][j]
                        } else {
                            start[i][j]
                        },
                decreases n_columns - l,
            {
                let cj = start_column + l;
                let tj = skip_columns + l;
                assert(texture@[ti as int][tj as int] == texture.pixels@[ti as int]@[tj as int]);
                match texture.pixels[ti][tj] {
                    Some(tile) => {
                        self.set_tile(ci, cj, tile);
                    },
                    None => {},
                }
                l = l + 1;
            }
            proof {
                assert forall|j: int| 0 <= j < start[ci as int].len() && !(start_column <= j
                    < start_column + n_columns) implies #[trigger] target[ci as int][j]
                    == start[ci as int][j] by {
                    let tx = j - position.x;
                    assert(tile_at(texture@, tx, ti as int) is None);
                }
            }
            k = k + 1;
        }
        proof {
            assert forall|i: int| 0 <= i < start.len() implies #[trigger] self@[i] =~= target[i] by {
                assert forall|j: int| 0 <= j < start[i].len() implies self@[i][j] == target[i][j] by {
                    if i >= start_row + n_rows {
                        assert(tile_at(texture@, j - position.x, i - position.y) is None);
                    }
                }
            }
            assert(self@ =~= target);
        }
    }

    /// Writes `text` as a row of tiles in the given colors, its first
    /// character at `position`.
    pub fn add_text(&mut self, text: &str, background: Color, foreground: Color, position: &Position)
        ensures
            final(self)@ == overlay(
                old(self)@,
                text_grid(text@, background, foreground),
                position.x as int,
                position.y as int,
            ),
            final(self).dimensions == old(self).dimensions,
            old(self).wf() ==> final(self).wf(),
    {
        let n = text.unicode_len();
        let mut row: Vec<Option<Tile>> = Vec::new();
        let mut j: usize = 0;
        while j < n
            invariant
                n == text@.len(),
                text_row(text@, background, foreground).len() == n,
                j <= n,
                row@ == text_row(text@, background, foreground).subrange(0, j as int),
            decreases n - j,
        {
            row.push(Some(Tile::new_character(text.get_char(j), background, foreground)));
            j = j + 1;
            assert(row@ =~= text_row(text@, background, foreground).subrange(0, j as int));
        }
        let ghost row_view = row@;
        let mut pixels: Vec<Vec<Option<Tile>>> = Vec::new();
        pixels.push(row);
        let texture = Texture { pixels, dimensions: Dimensions { width: n, height: 1 } };
        assert(row_view =~= text_row(text@, background, foreground));
        assert(texture@[0] == row_view);
        assert(texture@ =~= text_grid(text@, background, foreground));
        self.add_texture(texture, position);
    }

    /// Writes `text` in the theme's colors: orange on black.
    pub fn add_themed_text(&mut self, text: &str, position: &Position)
        ensures
            final(self)@ == overlay(
                old(self)@,
                themed_text_grid(text@),
                position.x as int,
                position.y as int,
            ),
            final(self).dimensions == old(self).dimensions,
            old(self).wf() ==> final(self).wf(),
    {
        self.add_text(text, Color::Black, Color::Orange, position);
    }

    /// Writes the lines in the theme's colors one below the other, the first
    /// at `position`.
    pub fn add_themed_paragraph(&mut self, text: &[&str], position: Position)
        requires
            position.y + text@.len() <= i8::MAX,
        ensures
            final(self)@ == paragraph(old(self)@, text@, position.x as int, position.y as int),
            final(self).dimensions == old(self).dimensions,
            old(self).wf() ==> final(self).wf(),
    {
        let mut current = position;
        let mut i: usize = 0;
        while i < text.len()
            invariant
                position.y + text@.len() <= i8::MAX,
                i <= text@.len(),
                current == (Position { x: position.x, y: (position.y + i) as i8 }),
                self@ == paragraph(old(self)@, text@.take(i as int), position.x as int, position.y as int),
                self.dimensions == old(self).dimensions,
                old(self).wf() ==> self.wf(),
            decreases text@.len() - i,
        {
            self.add_themed_text(text[i], &current);
            current.move_down();
            assert(text@.take(i + 1).drop_last() =~= text@.take(i as int));
            i = i + 1;
        }
        assert(text@.take(text@.len() as int) =~= text@);
    }

    /// The frame as escape sequences: the cursor sent home, the default
    /// colors set, then each tile in row-major order, with a color change
    /// only where a color differs from that of the tile before.
    pub fn get_printable_string(&mut self) -> (s: &String)
        ensures
            s@ == frame_code(old(self)@),
            final(self)@ == old(self)@,
            final(self).dimensions == old(self).dimensions,
            old(self).wf() ==> final(self).wf(),
    {
        let ghost rows = self@;
        let mut buffer = crossterm_move_to(0, 0);
        let start_tile = Tile::default();
        start_tile.apply_colors_of_tile_to_buffer(&mut buffer);
        let ghost prefix = buffer@;
        let mut previous = start_tile;
        let mut i: usize = 0;
        while i < self.rows.len()
            invariant
                rows == self@,
                i <= rows.len(),
                prefix == cursor_position_code(1, 1) + background_code(Color::Black)
                    + foreground_code(Color::White),
                buffer@ == prefix + scan_code(concat_rows(rows.take(i as int))),
                previous == if concat_rows(rows.take(i as int)).len() == 0 {
                    default_tile()
                } else {
                    concat_rows(rows.take(i as int)).last()
                },
            decreases rows.len() - i,
        {
            let ghost done = concat_rows(rows.take(i as int));
            assert(rows.take(i + 1).drop_last() =~= rows.take(i as int));
            assert(concat_rows(rows.take(i + 1)) == done + rows[i as int]);
            assert(rows[i as int] == self.rows@[i as int]@);
            let mut j: usize = 0;
            while j < self.rows[i].len()
                invariant
                    rows == self@,
                    i < rows.len(),
                    rows[i as int] == self.rows@[i as int]@,
                    j <= rows[i as int].len(),
                    done == concat_rows(rows.take(i as int)),
                    buffer@ == prefix + scan_code(done + rows[i as int].take(j as int)),
                    previous == if (done + rows[i as int].take(j as int)).len() == 0 {
                        default_tile()
                    } else {
                        (done + rows[i as int].take(j as int)).last()
                    },
                decreases rows[i as int].len() - j,
            {
                let tile = self.rows[i][j];
                let ghost cells = done + rows[i as int].take(j as int);
                assert((done + rows[i as int].take(j + 1)).drop_last() =~= cells);
                assert((done + rows[i as int].take(j + 1)).last() == tile);
                assert(cells.len() > 0 ==> cells.last() == cells[cells.len() - 1]);
                tile.fill_buffer_with_printable_string_with_respect_to_previous_tile(
                    &mut buffer,
                    &previous,
                );
                previous = tile;
                j = j + 1;
                assert(buffer@ =~= prefix + scan_code(done + rows[i as int].take(j as int)));
            }
            assert(rows[i as int].take(rows[i as int].len() as int) =~= rows[i as int]);
            i = i + 1;
        }
        assert(rows.take(rows.len() as int) =~= rows);
        self.buffer = buffer;
        &self.buffer
    }

    /// The frame with both colors written out for every tile, through the
    /// terminal crate's own color sequences.
    pub fn to_printable_string(&self) -> (s: String)
        ensures
            s@ == full_frame_code(self@),
    {
        let ghost rows = self@;
        let mut res = termion_goto(1, 1);
        let ghost prefix = res@;
        let mut i: usize = 0;
        while i < self.rows.len()
            invariant
                rows == self@,
                i <= rows.len(),
                prefix == cursor_position_code(1, 1),
                res@ == prefix + full_code(concat_rows(rows.take(i as int))),
            decreases rows.len() - i,
        {
            let ghost done = concat_rows(rows.take(i as int));
            assert(rows.take(i + 1).drop_last() =~= rows.take(i as int));
            assert(concat_rows(rows.take(i + 1)) == done + rows[i as int]);
            assert(rows[i as int] == self.rows@[i as int]@);
            let mut j: usize = 0;
            while j < self.rows[i].len()
                invariant
                    rows == self@,
                    i < rows.len(),
                    rows[i as int] == self.rows@[i as int]@,
                    j <= rows[i as int].len(),
                    done == concat_rows(rows.take(i as int)),
                    res@ == prefix + full_code(done + rows[i as int].take(j as int)),
                decreases rows[i as int].len() - j,
            {
                let tile = self.rows[i][j];
                let ghost cells = done + rows[i as int].take(j as int);
                assert((done + rows[i as int].take(j + 1)).drop_last() =~= cells);
                assert((done + rows[i as int].take(j + 1)).last() == tile);
                let code = tile.to_printable_string();
                res.append(code.as_str());
                j = j + 1;
                assert(res@ =~= prefix + full_code(done + rows[i as int].take(j as int)));
            }
            assert(rows[i as int].take(rows[i as int].len() as int) =~= rows[i as int]);
            i = i + 1;
        }
        assert(rows.take(rows.len() as int) =~= rows);
        res
    }
}

} // verus!
