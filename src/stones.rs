//! Falling pieces: the seven tetromino shapes, and movement and rotation
//! checked against the field.

use vstd::prelude::*;
use rand::Rng;
use crate::canvas::{overlay, Canvas};
use crate::color::Color;
use crate::field::{free_at, Field};
use crate::position::Position;
use crate::texture::{grid_shaped, rotated_grid, Dimensions, Grid, Texture};
use crate::tile::{background_tile, Tile};

verus! {

/// The seven tetromino shapes.
#[derive(Clone, Copy, Debug, PartialEq, Eq, Structural)]
pub enum Shape {
    I,
    J,
    L,
    Z,
    S,
    O,
    T,
}

/// The number of shapes.
pub const SHAPE_COUNT: u8 = 7;

/// A tile of a piece of the given color.
pub open spec fn block(c: Color) -> Option<Tile> {
    Some(background_tile(c))
}

impl Shape {
    /// The shape drawn at `index` in `0..7`.
    pub open spec fn spec_from_index(index: u8) -> Shape {
        if index == 0 {
            Shape::I
        } else if index == 1 {
            Shape::J
        } else if index == 2 {
            Shape::L
        } else if index == 3 {
            Shape::Z
        } else if index == 4 {
            Shape::S
        } else if index == 5 {
            Shape::O
        } else {
            Shape::T
        }
    }

    /// The bitmap of the shape, each shape in its own color.
    pub open spec fn grid(self) -> Grid {
        let n = None;
        match self {
            Shape::I => {
                let b = block(Color::LightBlue);
                seq![seq![b], seq![b], seq![b], seq![b]]
            },
            Shape::Z => {
                let b = block(Color::Red);
                seq![seq![b, b, n], seq![n, b, b]]
            },
            Shape::S => {
                let b = block(Color::Green);
                seq![seq![n, b, b], seq![b, b, n]]
            },
            Shape::J => {
                let b = block(Color::DarkBlue);
                seq![seq![b, n, n], seq![b, b, b]]
            },
            Shape::L => {
                let b = block(Color::Orange);
                seq![seq![n, n, b], seq![b, b, b]]
            },
            Shape::O => {
                let b = block(Color::Yellow);
                seq![seq![b, b], seq![b, b]]
            },
            Shape::T => {
                let b = block(Color::Purple);
                seq![seq![n, b, n], seq![b, b, b]]
            },
        }
    }

    /// The width and height of the shape's bitmap.
    pub open spec fn dimensions(self) -> Dimensions {
        match self {
            Shape::I => Dimensions { width: 1, height: 4 },
            Shape::O => Dimensions { width: 2, height: 2 },
            _ => Dimensions { width: 3, height: 2 },
        }
    }

    pub fn from_index(index: u8) -> (s: Shape)
        requires
            index < SHAPE_COUNT,
        ensures
            s == Shape::spec_from_index(index),
    {
        match index {
            0 => Shape::I,
            1 => Shape::J,
            2 => Shape::L,
            3 => Shape::Z,
            4 => Shape::S,
            5 => Shape::O,
            _ => Shape::T,
        }
    }
}

/// The texture is the bitmap of `shape`.
pub open spec fn is_shape_texture(t: Texture, shape: Shape) -> bool {
    t@ == shape.grid() && t.dimensions == shape.dimensions()
}

/// Relies on `rand::thread_rng` and `Rng::gen_range`: a number drawn
/// uniformly from `0..bound` (which panics on an empty range).
#[verifier::external_body]
fn random_below(bound: u8) -> (r: u8)
    requires
        bound > 0,
    ensures
        r < bound,
{
    rand::thread_rng().gen_range(0..bound)
}

fn row_of_three(a: Option<Tile>, b: Option<Tile>, c: Option<Tile>) -> (r: Vec<Option<Tile>>)
    ensures
        r@ == seq![a, b, c],
{
    let mut r: Vec<Option<Tile>> = Vec::new();
    r.push(a);
    r.push(b);
    r.push(c);
    assert(r@ =~= seq![a, b, c]);
    r
}

fn row_of_two(a: Option<Tile>, b: Option<Tile>) -> (r: Vec<Option<Tile>>)
    ensures
        r@ == seq![a, b],
{
    let mut r: Vec<Option<Tile>> = Vec::new();
    r.push(a);
    r.push(b);
    assert(r@ =~= seq![a, b]);
    r
}

fn two_rows(top: Vec<Option<Tile>>, bottom: Vec<Option<Tile>>, width: usize) -> (t: Texture)
    ensures
        t@ == seq![top@, bottom@],
        t.dimensions == (Dimensions { width, height: 2 }),
{
    let ghost (a, b) = (top@, bottom@);
    let mut pixels: Vec<Vec<Option<Tile>>> = Vec::new();
    pixels.push(top);
    pixels.push(bottom);
    let t = Texture { pixels, dimensions: Dimensions { width, height: 2 } };
    assert(t@ =~= seq![a, b]);
    t
}

/// Column `j` holds the first tile of the row.
pub open spec fn leftmost(row: Seq<Option<Tile>>, j: int) -> bool {
    &&& 0 <= j < row.len()
    &&& row[j] is Some
    &&& forall|k: int| 0 <= k < j ==> (#[trigger] row[k]) is None
}

/// Column `j` holds the last tile of the row.
pub open spec fn rightmost(row: Seq<Option<Tile>>, j: int) -> bool {
    &&& 0 <= j < row.len()
    &&& row[j] is Some
    &&& forall|k: int| j < k < row.len() ==> (#[trigger] row[k]) is None
}

/// Row `r` holds the lowest tile of column `c` of `g`.
pub open spec fn lowest(g: Grid, c: int, r: int) -> bool {
    &&& 0 <= r < g.len()
    &&& g[r][c] is Some
    &&& forall|k: int| r < k < g.len() ==> (#[trigger] g[k])[c] is None
}

/// The row holds at least one tile.
pub open spec fn row_has_tile(row: Seq<Option<Tile>>) -> bool {
    exists|j: int| 0 <= j < row.len() && (#[trigger] row[j]) is Some
}

/// Column `c` of `g` holds at least one tile.
pub open spec fn column_has_tile(g: Grid, c: int) -> bool {
    exists|r: int| 0 <= r < g.len() && (#[trigger] g[r])[c] is Some
}

/// A piece's bitmap: a non-empty texture with a tile in every row and in
/// every column.
pub open spec fn is_piece_texture(t: Texture) -> bool {
    &&& t.wf()
    &&& t.dimensions.width >= 1
    &&& t.dimensions.height >= 1
    &&& forall|r: int| 0 <= r < t.dimensions.height ==> row_has_tile(#[trigger] t@[r])
    &&& forall|c: int| 0 <= c < t.dimensions.width ==> column_has_tile(t@, c)
}

/// A quarter turn keeps a piece's bitmap one.
pub proof fn lemma_rotated_piece(g: Grid, width: nat, height: nat)
    requires
        grid_shaped(g, width as int, height as int),
        width >= 1,
        height >= 1,
        forall|r: int| 0 <= r < height ==> row_has_tile(#[trigger] g[r]),
        forall|c: int| 0 <= c < width ==> column_has_tile(g, c),
    ensures
        forall|r: int| 0 <= r < width ==> row_has_tile(#[trigger] rotated_grid(g, width, height)[r]),
        forall|c: int| 0 <= c < height ==> column_has_tile(rotated_grid(g, width, height), c),
{
    let rg = rotated_grid(g, width, height);
    assert forall|r: int| 0 <= r < width implies row_has_tile(#[trigger] rg[r]) by {
        assert(column_has_tile(g, r));
        let k = choose|k: int| 0 <= k < g.len() && (#[trigger] g[k])[r] is Some;
        assert(rg[r][height - 1 - k] is Some);
    }
    assert forall|c: int| 0 <= c < height implies column_has_tile(rg, c) by {
        assert(row_has_tile(g[height - 1 - c]));
        let k = choose|k: int|
            0 <= k < g[height - 1 - c].len() && (#[trigger] g[height - 1 - c][k]) is Some;
        assert(rg[k][c] is Some);
    }
}

/// Every shape's bitmap is a piece's bitmap.
pub proof fn lemma_shape_is_piece(t: Texture, shape: Shape)
    requires
        is_shape_texture(t, shape),
    ensures
        is_piece_texture(t),
{
    let g = t@;
    let w = t.dimensions.width as int;
    let h = t.dimensions.height as int;
    assert forall|r: int| 0 <= r < h implies row_has_tile(#[trigger] g[r]) by {
        match shape {
            Shape::L => assert(g[r][2] is Some),
            Shape::S => assert(g[r][1] is Some),
            Shape::T => assert(g[r][1] is Some),
            Shape::Z => assert(g[r][1] is Some),
            _ => assert(g[r][0] is Some),
        }
    }
    assert forall|c: int| 0 <= c < w implies column_has_tile(g, c) by {
        match shape {
            Shape::I => assert(g[0][c] is Some),
            Shape::O => assert(g[0][c] is Some),
            Shape::Z => if c == 0 {
                assert(g[0][c] is Some);
            } else {
                assert(g[1][c] is Some);
            },
            Shape::S => if c == 2 {
                assert(g[0][c] is Some);
            } else {
                assert(g[1][c] is Some);
            },
            _ => assert(g[1][c] is Some),
        }
    }
}

proof fn lemma_leftmost_unique(row: Seq<Option<Tile>>, a: int, b: int)
    requires
        leftmost(row, a),
        leftmost(row, b),
    ensures
        a == b,
{
    if a < b {
        assert(row[a] is None);
    } else if b < a {
        assert(row[b] is None);
    }
}

proof fn lemma_rightmost_unique(row: Seq<Option<Tile>>, a: int, b: int)
    requires
        rightmost(row, a),
        rightmost(row, b),
    ensures
        a == b,
{
    if a < b {
        assert(row[b] is None);
    } else if b < a {
        assert(row[a] is None);
    }
}

proof fn lemma_lowest_unique(g: Grid, c: int, a: int, b: int)
    requires
        lowest(g, c, a),
        lowest(g, c, b),
    ensures
        a == b,
{
    if a < b {
        assert(g[b][c] is None);
    } else if b < a {
        assert(g[a][c] is None);
    }
}

/// A falling piece: its bitmap, and the field position of the bitmap's
/// top-left corner.
#[derive(Clone, Debug)]
pub struct Stone {
    pub texture: Texture,
    pub position: Position,
}

impl Stone {
    /// The stone has a piece's bitmap, and the cells around its bounding box
    /// have coordinates that fit the position type.
    pub open spec fn wf(&self) -> bool {
        &&& is_piece_texture(self.texture)
        &&& i8::MIN < self.position.x
        &&& self.position.x + self.texture.dimensions.width < i8::MAX
        &&& i8::MIN < self.position.y
        &&& self.position.y + self.texture.dimensions.height < i8::MAX
    }

    /// The field is free left of the first tile of every row, and the stone
    /// is not at the left border.
    pub open spec fn spec_can_move_left(&self, field: &Field) -> bool {
        &&& self.position.x > 0
        &&& forall|r: int, j: int|
            0 <= r < self.texture.dimensions.height && leftmost(self.texture@[r], j)
                ==> free_at(
                field.texture@,
                self.position.x + j - 1,
                self.position.y + r,
            )
    }

    /// The field is free right of the last tile of every row, and after the
    /// move the stone still ends at the right border or before it.
    pub open spec fn spec_can_move_right(&self, field: &Field) -> bool {
        &&& self.position.x + self.texture.dimensions.width < field.texture.dimensions.width
        &&& forall|r: int, j: int|
            0 <= r < self.texture.dimensions.height && rightmost(self.texture@[r], j)
                ==> free_at(
                field.texture@,
                self.position.x + j + 1,
                self.position.y + r,
            )
    }

    /// The field is free below the lowest tile of every column, and the
    /// stone does not reach the bottom.
    pub open spec fn spec_can_move_down(&self, field: &Field) -> bool {
        &&& self.position.y + self.texture.dimensions.height < field.texture.dimensions.height
        &&& forall|c: int, r: int|
            0 <= c < self.texture.dimensions.width && lowest(self.texture@, c, r)
                ==> free_at(
                field.texture@,
                self.position.x + c,
                self.position.y + r + 1,
            )
    }

    /// The turned bounding box, from the same top-left corner, lies within
    /// the field; tiles already on the field are not looked at.
    pub open spec fn spec_can_rotate(&self, field: &Field) -> bool {
        &&& self.position.x >= 0
        &&& self.position.y >= 0
        &&& self.position.x + self.texture.dimensions.height <= field.texture.dimensions.width
        &&& self.position.y + self.texture.dimensions.width <= field.texture.dimensions.height
    }

    pub fn new(position: Position, texture: Texture) -> (s: Self)
        ensures
            s.position == position,
            s.texture == texture,
    {
        Self { position, texture }
    }

    /// Draws the stone's tiles at its position.
    pub fn render_at(&self, canvas: &mut Canvas)
        ensures
            final(canvas)@ == overlay(
                old(canvas)@,
                self.texture@,
                self.position.x as int,
                self.position.y as int,
            ),
            final(canvas).dimensions == old(canvas).dimensions,
            old(canvas).wf() ==> final(canvas).wf(),
    {
        canvas.add_texture(self.texture.duplicate(), &self.position);
    }

    /// The bitmap of a shape.
    pub fn new_shape(shape: Shape) -> (t: Texture)
        ensures
            is_shape_texture(t, shape),
            is_piece_texture(t),
    {
        let t = match shape {
            Shape::I => Self::new_i(),
            Shape::J => Self::new_j(),
            Shape::L => Self::new_l(),
            Shape::Z => Self::new_z(),
            Shape::S => Self::new_s(),
            Shape::O => Self::new_o(),
            Shape::T => Self::new_t(),
        };
        proof {
            lemma_shape_is_piece(t, shape);
        }
        t
    }

    pub fn new_i() -> (t: Texture)
        ensures
            is_shape_texture(t, Shape::I),
    {
        let b = Some(Tile::new_background(Color::LightBlue));
        let mut pixels: Vec<Vec<Option<Tile>>> = Vec::new();
        let mut i: usize = 0;
        while i < 4
            invariant
                i <= 4,
                b == block(Color::LightBlue),
                pixels@.len() == i,
                forall|k: int| 0 <= k < i ==> (#[trigger] pixels@[k])@ == seq![b],
            decreases 4 - i,
        {
            let mut row: Vec<Option<Tile>> = Vec::new();
            row.push(b);
            assert(row@ =~= seq![b]);
            pixels.push(row);
            i = i + 1;
        }
        let t = Texture { pixels, dimensions: Dimensions { width: 1, height: 4 } };
        assert(t@ =~= Shape::I.grid());
        t
    }

    pub fn new_z() -> (t: Texture)
        ensures
            is_shape_texture(t, Shape::Z),
    {
        let b = Some(Tile::new_background(Color::Red));
        two_rows(row_of_three(b, b, None), row_of_three(None, b, b), 3)
    }

    pub fn new_s() -> (t: Texture)
        ensures
            is_shape_texture(t, Shape::S),
    {
        let b = Some(Tile::new_background(Color::Green));
        two_rows(row_of_three(None, b, b), row_of_three(b, b, None), 3)
    }

    pub fn new_j() -> (t: Texture)
        ensures
            is_shape_texture(t, Shape::J),
    {
        let b = Some(Tile::new_background(Color::DarkBlue));
        two_rows(row_of_three(b, None, None), row_of_three(b, b, b), 3)
    }

    pub fn new_l() -> (t: Texture)
        ensures
            is_shape_texture(t, Shape::L),
    {
        let b = Some(Tile::new_background(Color::Orange));
        two_rows(row_of_three(None, None, b), row_of_three(b, b, b), 3)
    }

    pub fn new_o() -> (t: Texture)
        ensures
            is_shape_texture(t, Shape::O),
    {
        let b = Some(Tile::new_background(Color::Yellow));
        two_rows(row_of_two(b, b), row_of_two(b, b), 2)
    }

    pub fn new_t() -> (t: Texture)
        ensures
            is_shape_texture(t, Shape::T),
    {
        let b = Some(Tile::new_background(Color::Purple));
        two_rows(row_of_three(None, b, None), row_of_three(b, b, b), 3)
    }

    /// For each row of the bitmap, the field position of its first tile.
    pub fn left_most_points(&self) -> (points: Vec<Position>)
        requires
            self.wf(),
        ensures
            points@.len() == self.texture.dimensions.height,
            forall|r: int|
                0 <= r < points@.len() ==> #[trigger] points@[r].y == self.position.y + r && leftmost(
                    self.texture@[r],
                    points@[r].x - self.position.x,
                ),
    {
        let mut points: Vec<Position> = Vec::new();
        let mut r: usize = 0;
        while r < self.texture.pixels.len()
            invariant
                self.wf(),
                r <= self.texture.dimensions.height,
                points@.len() == r,
                forall|k: int|
                    0 <= k < r ==> #[trigger] points@[k].y == self.position.y + k && leftmost(
                        self.texture@[k],
                        points@[k].x - self.position.x,
                    ),
            decreases self.texture.dimensions.height - r,
        {
            let row = &self.texture.pixels[r];
            assert(row@ == self.texture@[r as int]);
            let mut j: usize = 0;
            while j < row.len() && row[j].is_none()
                invariant
                    j <= row@.len(),
                    forall|k: int| 0 <= k < j ==> (#[trigger] row@[k]) is None,
                decreases row@.len() - j,
            {
                j = j + 1;
            }
            assert(row_has_tile(self.texture@[r as int]));
            let x = (self.position.x as i16 + j as i16) as i8;
            let y = (self.position.y as i16 + r as i16) as i8;
            points.push(Position { x, y });
            r = r + 1;
        }
        points
    }

    /// For each row of the bitmap, the field position of its last tile.
    pub fn right_most_points(&self) -> (points: Vec<Position>)
        requires
            self.wf(),
        ensures
            points@.len() == self.texture.dimensions.height,
            forall|r: int|
                0 <= r < points@.len() ==> #[trigger] points@[r].y == self.position.y + r
                    && rightmost(self.texture@[r], points@[r].x - self.position.x),
    {
        let mut points: Vec<Position> = Vec::new();
        let mut r: usize = 0;
        while r < self.texture.pixels.len()
            invariant
                self.wf(),
                r <= self.texture.dimensions.height,
                points@.len() == r,
                forall|k: int|
                    0 <= k < r ==> #[trigger] points@[k].y == self.position.y + k && rightmost(
                        self.texture@[k],
                        points@[k].x - self.position.x,
                    ),
            decreases self.texture.dimensions.height - r,
        {
            let row = &self.texture.pixels[r];
            assert(row@ == self.texture@[r as int]);
            let mut j: usize = row.len();
            while j > 0 && row[j - 1].is_none()
                invariant
                    j <= row@.len(),
                    forall|k: int| j <= k < row@.len() ==> (#[trigger] row@[k]) is None,
                decreases j,
            {
                j = j - 1;
            }
            assert(row_has_tile(self.texture@[r as int]));
            let x = (self.position.x as i16 + j as i16 - 1) as i8;
            let y = (self.position.y as i16 + r as i16) as i8;
            points.push(Position { x, y });
            r = r + 1;
        }
        points
    }

    /// For each column of the bitmap, the field position of its lowest tile.
    pub fn bottom_points(&self) -> (points: Vec<Position>)
        requires
            self.wf(),
        ensures
            points@.len() == self.texture.dimensions.width,
            forall|c: int|
                0 <= c < points@.len() ==> #[trigger] points@[c].x == self.position.x + c && lowest(
                    self.texture@,
                    c,
                    points@[c].y - self.position.y,
                ),
    {
        let w = self.texture.dimensions.width;
        let h = self.texture.pixels.len();
        let mut points: Vec<Position> = Vec::new();
        let mut c: usize = 0;
        while c < w
            invariant
                self.wf(),
                w == self.texture.dimensions.width,
                h == self.texture.dimensions.height,
                c <= w,
                points@.len() == c,
                forall|k: int|
                    0 <= k < c ==> #[trigger] points@[k].x == self.position.x + k && lowest(
                        self.texture@,
                        k,
                        points@[k].y - self.position.y,
                    ),
            decreases w - c,
        {
            assert forall|k: int| 0 <= k < h implies (#[trigger] self.texture.pixels@[k])@.len() == w by {
                assert(self.texture@[k] == self.texture.pixels@[k]@);
            }
            let mut r: usize = h;
            while r > 0 && self.texture.pixels[r - 1][c].is_none()
                invariant
                    forall|k: int| 0 <= k < h ==> (#[trigger] self.texture.pixels@[k])@.len() == w,
                    self.wf(),
                    w == self.texture.dimensions.width,
                    h == self.texture.dimensions.height,
                    c < w,
                    r <= h,
                    forall|k: int| r <= k < h ==> (#[trigger] self.texture@[k])[c as int] is None,
                decreases r,
            {
                assert(self.texture@[r - 1][c as int] == self.texture.pixels@[r - 1]@[c as int]);
                r = r - 1;
            }
            assert(column_has_tile(self.texture@, c as int));
            if r > 0 {
                assert(self.texture@[r - 1][c as int] == self.texture.pixels@[r - 1]@[c as int]);
            }
            let x = (self.position.x as i16 + c as i16) as i8;
            let y = (self.position.y as i16 + r as i16 - 1) as i8;
            points.push(Position { x, y });
            c = c + 1;
        }
        points
    }

    fn can_move_left(&self, field: &Field) -> (r: bool)
        requires
            self.wf(),
            field.wf(),
        ensures
            r == self.spec_can_move_left(field),
    {
        let not_on_left_border = self.position.x > 0;
        let points = self.left_most_points();
        assert forall|k: int| 0 <= k < points@.len() implies #[trigger] points@[k].x > i8::MIN by {
            assert(points@[k].y == self.position.y + k);
        }
        let mut shifted: Vec<Position> = Vec::new();
        let mut i: usize = 0;
        while i < points.len()
            invariant
                i <= points@.len(),
                shifted@.len() == i,
                forall|k: int| 0 <= k < points@.len() ==> #[trigger] points@[k].x > i8::MIN,
                forall|k: int|
                    0 <= k < i ==> #[trigger] shifted@[k] == (Position {
                        x: (points@[k].x - 1) as i8,
                        y: points@[k].y,
                    }),
            decreases points@.len() - i,
        {
            let mut p = points[i];
            p.move_left();
            shifted.push(p);
            i = i + 1;
        }
        let free = field.all_positions_free(shifted.as_slice());
        proof {
            let h = self.texture.dimensions.height as int;
            if free {
                assert forall|r: int, j: int|
                    0 <= r < h && leftmost(self.texture@[r], j) implies free_at(
                    field.texture@,
                    self.position.x + j - 1,
                    self.position.y + r,
                ) by {
                    assert(points@[r].y == self.position.y + r);
                    lemma_leftmost_unique(self.texture@[r], j, points@[r].x - self.position.x);
                    assert(field.free(shifted@[r]));
                }
            } else {
                let k = choose|k: int| 0 <= k < shifted@.len() && !field.free(#[trigger] shifted@[k]);
                assert(points@[k].y == self.position.y + k);
                assert(leftmost(self.texture@[k], points@[k].x - self.position.x));
            }
        }
        not_on_left_border && free
    }

    fn can_move_right(&self, field: &Field) -> (r: bool)
        requires
            self.wf(),
            field.wf(),
        ensures
            r == self.spec_can_move_right(field),
    {
        let not_on_right_border = (self.position.x as i16) + (self.texture.dimensions.width as i16)
            < (field.texture.dimensions.width as i16);
        let points = self.right_most_points();
        assert forall|k: int| 0 <= k < points@.len() implies #[trigger] points@[k].x < i8::MAX by {
            assert(points@[k].y == self.position.y + k);
        }
        let mut shifted: Vec<Position> = Vec::new();
        let mut i: usize = 0;
        while i < points.len()
            invariant
                i <= points@.len(),
                shifted@.len() == i,
                forall|k: int| 0 <= k < points@.len() ==> #[trigger] points@[k].x < i8::MAX,
                forall|k: int|
                    0 <= k < i ==> #[trigger] shifted@[k] == (Position {
                        x: (points@[k].x + 1) as i8,
                        y: points@[k].y,
                    }),
            decreases points@.len() - i,
        {
            let mut p = points[i];
            p.move_right();
            shifted.push(p);
            i = i + 1;
        }
        let free = field.all_positions_free(shifted.as_slice());
        proof {
            let h = self.texture.dimensions.height as int;
            if free {
                assert forall|r: int, j: int|
                    0 <= r < h && rightmost(self.texture@[r], j) implies free_at(
                    field.texture@,
                    self.position.x + j + 1,
                    self.position.y + r,
                ) by {
                    assert(points@[r].y == self.position.y + r);
                    lemma_rightmost_unique(self.texture@[r], j, points@[r].x - self.position.x);
                    assert(field.free(shifted@[r]));
                }
            } else {
                let k = choose|k: int| 0 <= k < shifted@.len() && !field.free(#[trigger] shifted@[k]);
                assert(points@[k].y == self.position.y + k);
                assert(rightmost(self.texture@[k], points@[k].x - self.position.x));
            }
        }
        not_on_right_border && free
    }

    pub(crate) fn can_move_down(&self, field: &Field) -> (r: bool)
        requires
            self.wf(),
            field.wf(),
        ensures
            r == self.spec_can_move_down(field),
    {
        let not_at_bottom = (self.position.y as i16) + (self.texture.dimensions.height as i16)
            < (field.texture.dimensions.height as i16);
        let points = self.bottom_points();
        assert forall|k: int| 0 <= k < points@.len() implies #[trigger] points@[k].y < i8::MAX by {
            assert(points@[k].x == self.position.x + k);
        }
        let mut shifted: Vec<Position> = Vec::new();
        let mut i: usize = 0;
        while i < points.len()
            invariant
                i <= points@.len(),
                shifted@.len() == i,
                forall|k: int| 0 <= k < points@.len() ==> #[trigger] points@[k].y < i8::MAX,
                forall|k: int|
                    0 <= k < i ==> #[trigger] shifted@[k] == (Position {
                        x: points@[k].x,
                        y: (points@[k].y + 1) as i8,
                    }),
            decreases points@.len() - i,
        {
            let mut p = points[i];
            p.move_down();
            shifted.push(p);
            i = i + 1;
        }
        let free = field.all_positions_free(shifted.as_slice());
        proof {
            let w = self.texture.dimensions.width as int;
            if free {
                assert forall|c: int, r: int|
                    0 <= c < w && lowest(self.texture@, c, r) implies free_at(
                    field.texture@,
                    self.position.x + c,
                    self.position.y + r + 1,
                ) by {
                    assert(points@[c].x == self.position.x + c);
                    lemma_lowest_unique(self.texture@, c, r, points@[c].y - self.position.y);
                    assert(field.free(shifted@[c]));
                }
            } else {
                let k = choose|k: int| 0 <= k < shifted@.len() && !field.free(#[trigger] shifted@[k]);
                assert(points@[k].x == self.position.x + k);
                assert(lowest(self.texture@, k, points@[k].y - self.position.y));
            }
        }
        not_at_bottom && free
    }

    /// Moves the stone one row down if the field lets it; says whether it
    /// moved.
    pub fn move_down(&mut self, field: &Field) -> (moved: bool)
        requires
            old(self).wf(),
            field.wf(),
        ensures
            moved == old(self).spec_can_move_down(field),
            final(self).texture == old(self).texture,
            final(self).position == if moved {
                Position { x: old(self).position.x, y: (old(self).position.y + 1) as i8 }
            } else {
                old(self).position
            },
            final(self).wf(),
    {
        if self.can_move_down(field) {
            self.position.move_down();
            true
        } else {
            false
        }
    }

    /// Moves the stone one column left if the field lets it; says whether
    /// it moved.
    pub fn move_left(&mut self, field: &Field) -> (moved: bool)
        requires
            old(self).wf(),
            field.wf(),
        ensures
            moved == old(self).spec_can_move_left(field),
            final(self).texture == old(self).texture,
            final(self).position == if moved {
                Position { x: (old(self).position.x - 1) as i8, y: old(self).position.y }
            } else {
                old(self).position
            },
            final(self).wf(),
    {
        if self.can_move_left(field) {
            self.position.move_left();
            true
        } else {
            false
        }
    }

    /// Moves the stone one column right if the field lets it; says whether
    /// it moved.
    pub fn move_right(&mut self, field: &Field) -> (moved: bool)
        requires
            old(self).wf(),
            field.wf(),
        ensures
            moved == old(self).spec_can_move_right(field),
            final(self).texture == old(self).texture,
            final(self).position == if moved {
                Position { x: (old(self).position.x + 1) as i8, y: old(self).position.y }
            } else {
                old(self).position
            },
            final(self).wf(),
    {
        if self.can_move_right(field) {
            self.position.move_right();
            true
        } else {
            false
        }
    }

    fn would_be_in_bounds_after_rotation(&self, field: &Field) -> (r: bool)
        requires
            self.wf(),
            field.wf(),
        ensures
            r == self.spec_can_rotate(field),
    {
        let new_dimensions = self.texture.dimensions.transpose_into();
        let container = &field.texture.dimensions;
        self.position.x >= 0 && self.position.y >= 0 && (self.position.x as i16) + (
        new_dimensions.width as i16) <= (container.width as i16) && (self.position.y as i16) + (
        new_dimensions.height as i16) <= (container.height as i16)
    }

    /// Turns the stone a quarter clockwise about its position if the turned
    /// bounding box stays within the field; says whether it turned.
    pub fn rotate(&mut self, field: &Field) -> (turned: bool)
        requires
            old(self).wf(),
            field.wf(),
        ensures
            turned == old(self).spec_can_rotate(field),
            final(self).position == old(self).position,
            turned ==> final(self).texture@ == rotated_grid(
                old(self).texture@,
                old(self).texture.dimensions.width as nat,
                old(self).texture.dimensions.height as nat,
            ) && final(self).texture.dimensions == (Dimensions {
                width: old(self).texture.dimensions.height,
                height: old(self).texture.dimensions.width,
            }),
            !turned ==> final(self).texture == old(self).texture,
            final(self).wf(),
    {
        if self.would_be_in_bounds_after_rotation(field) {
            self.texture.rotate();
            proof {
                lemma_rotated_piece(
                    old(self).texture@,
                    old(self).texture.dimensions.width as nat,
                    old(self).texture.dimensions.height as nat,
                );
            }
            true
        } else {
            false
        }
    }

    /// The bitmap of a shape drawn at random, each of the seven equally
    /// likely.
    pub fn new_random_texture() -> (t: Texture)
        ensures
            exists|shape: Shape| is_shape_texture(t, shape),
            is_piece_texture(t),
    {
        let shape = Shape::from_index(random_below(SHAPE_COUNT));
        Self::new_shape(shape)
    }
}

} // verus!
