//! Rectangular bitmaps of optional tiles.

use vstd::prelude::*;
use crate::color::Color;
use crate::tile::{background_tile, Tile};

verus! {

/// A width and a height.
#[derive(Clone, Copy, Debug, PartialEq, Eq, Structural)]
pub struct Dimensions {
    pub width: usize,
    pub height: usize,
}

/// A grid given as rows of cells.
pub type Grid = Seq<Seq<Option<Tile>>>;

/// `g` has `height` rows of `width` cells each.
pub open spec fn grid_shaped(g: Grid, width: int, height: int) -> bool {
    &&& g.len() == height
    &&& forall|i: int| 0 <= i < height ==> #[trigger] g[i].len() == width
}

/// A grid of `height` rows of `width` copies of `cell`.
pub open spec fn filled_grid(width: nat, height: nat, cell: Option<Tile>) -> Grid {
    Seq::new(height, |i: int| Seq::new(width, |j: int| cell))
}

/// The quarter turn of a `width` x `height` grid: row `c` of the result is
/// column `c` of `g` read from the bottom up.
pub open spec fn rotated_grid(g: Grid, width: nat, height: nat) -> Grid {
    Seq::new(width, |c: int| Seq::new(height, |r: int| g[height - 1 - r][c]))
}

/// Turning a grid a quarter four times gives it back.
pub proof fn lemma_rotate_four_times(g: Grid, width: nat, height: nat)
    requires
        grid_shaped(g, width as int, height as int),
    ensures
        rotated_grid(
            rotated_grid(rotated_grid(rotated_grid(g, width, height), height, width), width, height),
            height,
            width,
        ) == g,
{
    let r1 = rotated_grid(g, width, height);
    let r2 = rotated_grid(r1, height, width);
    let r3 = rotated_grid(r2, width, height);
    let r4 = rotated_grid(r3, height, width);
    assert forall|i: int, j: int| 0 <= i < height && 0 <= j < width implies r2[i][j] == g[height
        - 1 - i][width - 1 - j] by {}
    assert forall|i: int, j: int| 0 <= i < width && 0 <= j < height implies r3[i][j] == g[j][width
        - 1 - i] by {}
    assert forall|i: int| 0 <= i < height implies r4[i] =~= g[i] by {}
    assert(r4 =~= g);
}

impl Dimensions {
    pub fn transpose(&mut self)
        ensures
            *final(self) == (Dimensions { width: old(self).height, height: old(self).width }),
    {
        let temp = self.width;
        self.width = self.height;
        self.height = temp;
    }

    pub fn transpose_into(&self) -> (d: Self)
        ensures
            d == (Dimensions { width: self.height, height: self.width }),
    {
        Self { width: self.height, height: self.width }
    }
}

/// A bitmap of optional tiles; an absent tile is transparent.
#[derive(Clone, Debug)]
pub struct Texture {
    pub pixels: Vec<Vec<Option<Tile>>>,
    pub dimensions: Dimensions,
}

impl View for Texture {
    type V = Grid;

    open spec fn view(&self) -> Grid {
        self.pixels@.map_values(|row: Vec<Option<Tile>>| row@)
    }
}

/// A copy of a row of cells.
pub(crate) fn copy_row(row: &Vec<Option<Tile>>) -> (r: Vec<Option<Tile>>)
    ensures
        r@ == row@,
{
    let mut r: Vec<Option<Tile>> = Vec::new();
    let mut j: usize = 0;
    while j < row.len()
        invariant
            j <= row.len(),
            r@ == row@.subrange(0, j as int),
        decreases row.len() - j,
    {
        r.push(row[j]);
        j = j + 1;
    }
    assert(r@ =~= row@);
    r
}

/// A row of `width` copies of `cell`.
pub(crate) fn uniform_row(width: usize, cell: Option<Tile>) -> (r: Vec<Option<Tile>>)
    ensures
        r@ == Seq::new(width as nat, |j: int| cell),
{
    let mut r: Vec<Option<Tile>> = Vec::new();
    let mut j: usize = 0;
    while j < width
        invariant
            j <= width,
            r@ == Seq::new(j as nat, |k: int| cell),
        decreases width - j,
    {
        r.push(cell);
        j = j + 1;
        assert(r@ =~= Seq::new(j as nat, |k: int| cell));
    }
    r
}

fn uniform_texture(dimensions: Dimensions, cell: Option<Tile>) -> (t: Texture)
    ensures
        t.dimensions == dimensions,
        t@ == filled_grid(dimensions.width as nat, dimensions.height as nat, cell),
{
    let mut pixels: Vec<Vec<Option<Tile>>> = Vec::new();
    let mut i: usize = 0;
    while i < dimensions.height
        invariant
            i <= dimensions.height,
            pixels@.len() == i,
            forall|k: int|
                0 <= k < i ==> #[trigger] pixels@[k]@ == Seq::new(
                    dimensions.width as nat,
                    |j: int| cell,
                ),
        decreases dimensions.height - i,
    {
        let row = uniform_row(dimensions.width, cell);
        pixels.push(row);
        i = i + 1;
    }
    let t = Texture { pixels, dimensions };
    assert(t@ =~= filled_grid(dimensions.width as nat, dimensions.height as nat, cell));
    t
}

impl Texture {
    /// The texture is as large as its dimensions say.
    pub open spec fn wf(&self) -> bool {
        grid_shaped(self@, self.dimensions.width as int, self.dimensions.height as int)
    }

    /// A fully transparent texture.
    pub fn new(dimensions: Dimensions) -> (t: Self)
        ensures
            t.dimensions == dimensions,
            t@ == filled_grid(dimensions.width as nat, dimensions.height as nat, None),
            t.wf(),
    {
        uniform_texture(dimensions, None)
    }

    /// A texture of blank tiles of one background.
    pub fn new_background(dimensions: Dimensions, background: Color) -> (t: Self)
        ensures
            t.dimensions == dimensions,
            t@ == filled_grid(
                dimensions.width as nat,
                dimensions.height as nat,
                Some(background_tile(background)),
            ),
            t.wf(),
    {
        uniform_texture(dimensions, Some(Tile::new_background(background)))
    }

    /// A copy of this texture.
    pub fn duplicate(&self) -> (t: Self)
        ensures
            t@ == self@,
            t.dimensions == self.dimensions,
    {
        let mut pixels: Vec<Vec<Option<Tile>>> = Vec::new();
        let mut i: usize = 0;
        while i < self.pixels.len()
            invariant
                i <= self.pixels.len(),
                pixels@.len() == i,
                forall|k: int| 0 <= k < i ==> #[trigger] pixels@[k]@ == self.pixels@[k]@,
            decreases self.pixels.len() - i,
        {
            let row = copy_row(&self.pixels[i]);
            pixels.push(row);
            i = i + 1;
        }
        let t = Texture { pixels, dimensions: self.dimensions };
        assert(t@ =~= self@);
        t
    }

    fn rotated_pixels(&self) -> (p: Vec<Vec<Option<Tile>>>)
        requires
            self.wf(),
        ensures
            p@.map_values(|row: Vec<Option<Tile>>| row@) == rotated_grid(
                self@,
                self.dimensions.width as nat,
                self.dimensions.height as nat,
            ),
    {
        let w = self.dimensions.width;
        let h = self.dimensions.height;
        let ghost target = rotated_grid(self@, w as nat, h as nat);
        let mut p: Vec<Vec<Option<Tile>>> = Vec::new();
        let mut c: usize = 0;
        while c < w
            invariant
                self.wf(),
                w == self.dimensions.width,
                h == self.dimensions.height,
                target == rotated_grid(self@, w as nat, h as nat),
                c <= w,
                p@.len() == c,
                forall|k: int| 0 <= k < c ==> #[trigger] p@[k]@ == target[k],
            decreases w - c,
        {
            let mut row: Vec<Option<Tile>> = Vec::new();
            let mut r: usize = 0;
            while r < h
                invariant
                    self.wf(),
                    w == self.dimensions.width,
                    h == self.dimensions.height,
                    target == rotated_grid(self@, w as nat, h as nat),
                    c < w,
                    r <= h,
                    row@ == target[c as int].subrange(0, r as int),
                decreases h - r,
            {
                assert(self@[h - 1 - r].len() == w);
                row.push(self.pixels[h - 1 - r][c]);
                r = r + 1;
                assert(row@ =~= target[c as int].subrange(0, r as int));
            }
            assert(row@ =~= target[c as int]);
            p.push(row);
            c = c + 1;
        }
        assert(p@.map_values(|row: Vec<Option<Tile>>| row@) =~= target);
        p
    }

    /// Turns the texture a quarter clockwise: the rows, read from the bottom
    /// up, become the columns; width and height are swapped.
    pub fn rotate(&mut self)
        requires
            old(self).wf(),
        ensures
            final(self)@ == rotated_grid(
                old(self)@,
                old(self).dimensions.width as nat,
                old(self).dimensions.height as nat,
            ),
            final(self).dimensions == (Dimensions {
                width: old(self).dimensions.height,
                height: old(self).dimensions.width,
            }),
            final(self).wf(),
    {
        let p = self.rotated_pixels();
        self.pixels = p;
        self.dimensions.transpose();
    }
}

} // verus!
