use vstd::prelude::*;

use crate::error::TileCacheError;

verus! {

/// A point of a texture, in whole pixels from its top-left corner.
#[derive(Debug, Clone, Copy, PartialEq, Eq, Structural)]
pub struct PixelPoint {
    pub x: u64,
    pub y: u64,
}

/// The axis-aligned region of a texture that one tile occupies.
///
/// `top_left` is the first pixel of the tile; `bottom_right` lies one tile
/// width to the right of it and one tile height below.
#[derive(Debug, Clone, Copy, PartialEq, Eq, Structural)]
pub struct TileBounds {
    pub top_left: PixelPoint,
    pub bottom_right: PixelPoint,
}

impl TileBounds {
    /// Horizontal extent, in pixels.
    pub open spec fn width(self) -> int {
        self.bottom_right.x - self.top_left.x
    }

    /// Vertical extent, in pixels.
    pub open spec fn height(self) -> int {
        self.bottom_right.y - self.top_left.y
    }

    /// Whether the two regions share a pixel.
    pub open spec fn overlaps(self, other: TileBounds) -> bool {
        &&& self.top_left.x < other.bottom_right.x
        &&& other.top_left.x < self.bottom_right.x
        &&& self.top_left.y < other.bottom_right.y
        &&& other.top_left.y < self.bottom_right.y
    }
}

/// The grid that a tileset lays over its atlas image, as plain numbers.
///
/// Tiles are `tile_width` by `tile_height` pixels. `margin` pixels are left
/// free at the top and at the left of the image, and `spacing` pixels after
/// each tile.
pub ghost struct GridModel {
    pub tile_width: nat,
    pub tile_height: nat,
    pub spacing: nat,
    pub margin: nat,
    pub image_width: nat,
    pub image_height: nat,
}

impl GridModel {
    /// Distance from the left edge of one tile to the left edge of the next.
    pub open spec fn stride_x(self) -> nat {
        self.tile_width + self.spacing
    }

    /// Distance from the top edge of one row to the top edge of the next.
    pub open spec fn stride_y(self) -> nat {
        self.tile_height + self.spacing
    }

    /// A grid exists only where both strides are positive.
    pub open spec fn valid(self) -> bool {
        self.stride_x() > 0 && self.stride_y() > 0
    }

    /// Whole tiles that fit across the image; a partial last column is lost.
    pub open spec fn tiles_per_row(self) -> nat {
        self.image_width / self.stride_x()
    }

    /// Whole rows that fit down the image; a partial last row is lost.
    pub open spec fn rows(self) -> nat {
        self.image_height / self.stride_y()
    }

    /// Number of cells of the grid.
    pub open spec fn tile_count(self) -> nat {
        self.tiles_per_row() * self.rows()
    }

    /// Column of cell `index`, counting cells row by row.
    pub open spec fn column(self, index: nat) -> nat {
        index % self.tiles_per_row()
    }

    /// Row of cell `index`, counting cells row by row.
    pub open spec fn row(self, index: nat) -> nat {
        index / self.tiles_per_row()
    }

    /// First pixel column of cell `index`.
    pub open spec fn left(self, index: nat) -> nat {
        self.margin + self.column(index) * self.stride_x()
    }

    /// First pixel row of cell `index`.
    pub open spec fn top(self, index: nat) -> nat {
        self.margin + self.row(index) * self.stride_y()
    }

    /// Pixel column after the last of cell `index`.
    pub open spec fn right(self, index: nat) -> nat {
        self.left(index) + self.tile_width
    }

    /// Pixel row after the last of cell `index`.
    pub open spec fn bottom(self, index: nat) -> nat {
        self.top(index) + self.tile_height
    }

    /// Region of cell `index`. Meaningful for `index < self.tile_count()`.
    pub open spec fn bounds(self, index: nat) -> TileBounds {
        TileBounds {
            top_left: PixelPoint { x: self.left(index) as u64, y: self.top(index) as u64 },
            bottom_right: PixelPoint { x: self.right(index) as u64, y: self.bottom(index) as u64 },
        }
    }

    /// Every field fits the width that a tileset stores it in.
    pub open spec fn fits_u32(self) -> bool {
        &&& self.tile_width <= u32::MAX
        &&& self.tile_height <= u32::MAX
        &&& self.spacing <= u32::MAX
        &&& self.margin <= u32::MAX
        &&& self.image_width <= u32::MAX
        &&& self.image_height <= u32::MAX
    }
}

/// Integer division truncates: the columns that are counted fit the image,
/// and one more would not.
pub proof fn lemma_tiles_per_row_truncates(grid: GridModel)
    requires
        grid.valid(),
    ensures
        grid.tiles_per_row() * grid.stride_x() <= grid.image_width,
        grid.image_width < (grid.tiles_per_row() + 1) * grid.stride_x(),
        grid.rows() * grid.stride_y() <= grid.image_height,
        grid.image_height < (grid.rows() + 1) * grid.stride_y(),
{
    let w = grid.image_width as int;
    let sx = grid.stride_x() as int;
    let h = grid.image_height as int;
    let sy = grid.stride_y() as int;
    assert((w / sx) * sx <= w && w < (w / sx + 1) * sx) by (nonlinear_arith)
        requires
            sx > 0,
            w >= 0,
    ;
    assert((h / sy) * sy <= h && h < (h / sy + 1) * sy) by (nonlinear_arith)
        requires
            sy > 0,
            h >= 0,
    ;
}

/// Where the image width is a whole number of strides, the columns cover it
/// exactly.
pub proof fn lemma_tiles_per_row_exact(grid: GridModel)
    requires
        grid.valid(),
        grid.image_width % grid.stride_x() == 0,
    ensures
        grid.tiles_per_row() * grid.stride_x() == grid.image_width,
{
    let w = grid.image_width as int;
    let sx = grid.stride_x() as int;
    assert((w / sx) * sx == w) by (nonlinear_arith)
        requires
            sx > 0,
            w % sx == 0,
    ;
}

/// Truncation leaves no choice: the columns and rows of a grid are the only
/// numbers of strides that fit the image while one more does not.
pub proof fn lemma_grid_size(grid: GridModel, columns: nat, rows: nat)
    requires
        grid.valid(),
        columns * grid.stride_x() <= grid.image_width < (columns + 1) * grid.stride_x(),
        rows * grid.stride_y() <= grid.image_height < (rows + 1) * grid.stride_y(),
    ensures
        grid.tiles_per_row() == columns,
        grid.rows() == rows,
        grid.tile_count() == columns * rows,
{
    lemma_tiles_per_row_truncates(grid);
    let n = grid.tiles_per_row() as int;
    let c = columns as int;
    let sx = grid.stride_x() as int;
    let w = grid.image_width as int;
    assert(n == c) by (nonlinear_arith)
        requires
            sx > 0,
            n * sx <= w < (n + 1) * sx,
            c * sx <= w < (c + 1) * sx,
    ;
    let m = grid.rows() as int;
    let r = rows as int;
    let sy = grid.stride_y() as int;
    let h = grid.image_height as int;
    assert(m == r) by (nonlinear_arith)
        requires
            sy > 0,
            m * sy <= h < (m + 1) * sy,
            r * sy <= h < (r + 1) * sy,
    ;
}

/// Cells are counted row by row: the cell in row `row` and column `column`
/// has the index `row * tiles_per_row + column`, and starts `column` strides
/// to the right of the margin and `row` strides below it.
pub proof fn lemma_cell_at(grid: GridModel, row: nat, column: nat)
    requires
        grid.valid(),
        row < grid.rows(),
        column < grid.tiles_per_row(),
    ensures
        row * grid.tiles_per_row() + column < grid.tile_count(),
        grid.row(row * grid.tiles_per_row() + column) == row,
        grid.column(row * grid.tiles_per_row() + column) == column,
        grid.left(row * grid.tiles_per_row() + column) == grid.margin + column * grid.stride_x(),
        grid.top(row * grid.tiles_per_row() + column) == grid.margin + row * grid.stride_y(),
{
    let n = grid.tiles_per_row() as int;
    let m = grid.rows() as int;
    let r = row as int;
    let c = column as int;
    assert(r * n + c < n * m && (r * n + c) / n == r && (r * n + c) % n == c) by (nonlinear_arith)
        requires
            0 <= r < m,
            0 <= c < n,
    ;
}

/// A cell of the grid lies in a column and a row of the grid.
pub proof fn lemma_cell_position(grid: GridModel, index: nat)
    requires
        grid.valid(),
        index < grid.tile_count(),
    ensures
        grid.tiles_per_row() > 0,
        grid.column(index) < grid.tiles_per_row(),
        grid.row(index) < grid.rows(),
        index == grid.row(index) * grid.tiles_per_row() + grid.column(index),
{
    let n = grid.tiles_per_row() as int;
    let r = grid.rows() as int;
    let i = index as int;
    assert(n > 0) by (nonlinear_arith)
        requires
            0 <= i < n * r,
            n >= 0,
            r >= 0,
    ;
    assert(0 <= i % n < n && i == (i / n) * n + i % n && i / n < r) by (nonlinear_arith)
        requires
            n > 0,
            0 <= i < n * r,
    ;
}

/// The region of every cell starts at or after the margin, is exactly one
/// tile wide and one tile high, and ends within the strides counted for the
/// image, so that for a grid of 32-bit fields no coordinate is cut short.
pub proof fn lemma_bounds_of_cell(grid: GridModel, index: nat)
    requires
        grid.valid(),
        index < grid.tile_count(),
    ensures
        grid.left(index) >= grid.margin,
        grid.top(index) >= grid.margin,
        grid.right(index) - grid.left(index) == grid.tile_width,
        grid.bottom(index) - grid.top(index) == grid.tile_height,
        grid.left(index) + grid.stride_x() <= grid.margin + grid.image_width,
        grid.top(index) + grid.stride_y() <= grid.margin + grid.image_height,
        grid.fits_u32() ==> grid.bounds(index).top_left.x == grid.left(index),
        grid.fits_u32() ==> grid.bounds(index).top_left.y == grid.top(index),
        grid.fits_u32() ==> grid.bounds(index).bottom_right.x == grid.right(index),
        grid.fits_u32() ==> grid.bounds(index).bottom_right.y == grid.bottom(index),
        grid.fits_u32() ==> grid.bounds(index).width() == grid.tile_width,
        grid.fits_u32() ==> grid.bounds(index).height() == grid.tile_height,
{
    lemma_cell_position(grid, index);
    lemma_tiles_per_row_truncates(grid);
    let c = grid.column(index) as int;
    let n = grid.tiles_per_row() as int;
    let sx = grid.stride_x() as int;
    let r = grid.row(index) as int;
    let m = grid.rows() as int;
    let sy = grid.stride_y() as int;
    assert((c + 1) * sx <= n * sx && (c + 1) * sx == c * sx + sx) by (nonlinear_arith)
        requires
            0 <= c < n,
            sx > 0,
    ;
    assert((r + 1) * sy <= m * sy && (r + 1) * sy == r * sy + sy) by (nonlinear_arith)
        requires
            0 <= r < m,
            sy > 0,
    ;
}

/// No two cells of a grid share a pixel: one of them ends where the other
/// starts, or before it, across or down.
pub proof fn lemma_cells_disjoint(grid: GridModel, first: nat, second: nat)
    requires
        grid.valid(),
        first < grid.tile_count(),
        second < grid.tile_count(),
        first != second,
    ensures
        grid.right(first) <= grid.left(second) || grid.right(second) <= grid.left(first)
            || grid.bottom(first) <= grid.top(second) || grid.bottom(second) <= grid.top(first),
        grid.fits_u32() ==> !grid.bounds(first).overlaps(grid.bounds(second)),
{
    lemma_cell_position(grid, first);
    lemma_cell_position(grid, second);
    lemma_bounds_of_cell(grid, first);
    lemma_bounds_of_cell(grid, second);
    let sx = grid.stride_x() as int;
    let sy = grid.stride_y() as int;
    let c1 = grid.column(first) as int;
    let c2 = grid.column(second) as int;
    let r1 = grid.row(first) as int;
    let r2 = grid.row(second) as int;
    if r1 == r2 {
        assert(c1 != c2);
        if c1 < c2 {
            assert(c1 * sx + sx <= c2 * sx) by (nonlinear_arith)
                requires
                    c1 + 1 <= c2,
                    sx > 0,
            ;
        } else {
            assert(c2 * sx + sx <= c1 * sx) by (nonlinear_arith)
                requires
                    c2 + 1 <= c1,
                    sx > 0,
            ;
        }
    } else if r1 < r2 {
        assert(r1 * sy + sy <= r2 * sy) by (nonlinear_arith)
            requires
                r1 + 1 <= r2,
                sy > 0,
        ;
    } else {
        assert(r2 * sy + sy <= r1 * sy) by (nonlinear_arith)
            requires
                r2 + 1 <= r1,
                sy > 0,
        ;
    }
}

/// The grid of one tileset atlas.
///
/// A value of this type always has positive strides, so its cells can be
/// counted and placed without dividing by zero.
#[derive(Debug, Clone, Copy)]
pub struct TileGrid {
    tile_width: u32,
    tile_height: u32,
    spacing: u32,
    margin: u32,
    image_width: u32,
    image_height: u32,
}

impl View for TileGrid {
    type V = GridModel;

    closed spec fn view(&self) -> GridModel {
        GridModel {
            tile_width: self.tile_width as nat,
            tile_height: self.tile_height as nat,
            spacing: self.spacing as nat,
            margin: self.margin as nat,
            image_width: self.image_width as nat,
            image_height: self.image_height as nat,
        }
    }
}

impl TileGrid {
    #[verifier::type_invariant]
    pub closed spec fn wf(self) -> bool {
        self@.valid()
    }

    /// Lays a grid of `tile_width` by `tile_height` tiles over an image of
    /// `image_width` by `image_height` pixels.
    ///
    /// Fails where a tile and its spacing are zero pixels wide or high.
    pub fn new(
        tile_width: u32,
        tile_height: u32,
        spacing: u32,
        margin: u32,
        image_width: u32,
        image_height: u32,
    ) -> (result: Result<TileGrid, TileCacheError>)
        ensures
            result is Ok <==> tile_width + spacing > 0 && tile_height + spacing > 0,
            result matches Ok(grid) ==> grid@ == (GridModel {
                tile_width: tile_width as nat,
                tile_height: tile_height as nat,
                spacing: spacing as nat,
                margin: margin as nat,
                image_width: image_width as nat,
                image_height: image_height as nat,
            }),
            result matches Ok(grid) ==> grid@.stride_x() == tile_width + spacing,
            result matches Ok(grid) ==> grid@.stride_y() == tile_height + spacing,
            result matches Err(e) ==> e == TileCacheError::InvalidTilesetGeometry,
    {
        if (tile_width == 0 || tile_height == 0) && spacing == 0 {
            return Err(TileCacheError::InvalidTilesetGeometry);
        }
        Ok(TileGrid::with_strides(tile_width, tile_height, spacing, margin, image_width, image_height))
    }

    /// The grid of `new`, for a caller who knows that both strides are
    /// positive.
    pub(crate) fn with_strides(
        tile_width: u32,
        tile_height: u32,
        spacing: u32,
        margin: u32,
        image_width: u32,
        image_height: u32,
    ) -> (grid: TileGrid)
        requires
            tile_width + spacing > 0,
            tile_height + spacing > 0,
        ensures
            grid@ == (GridModel {
                tile_width: tile_width as nat,
                tile_height: tile_height as nat,
                spacing: spacing as nat,
                margin: margin as nat,
                image_width: image_width as nat,
                image_height: image_height as nat,
            }),
            grid@.stride_x() == tile_width + spacing,
            grid@.stride_y() == tile_height + spacing,
    {
        TileGrid { tile_width, tile_height, spacing, margin, image_width, image_height }
    }

    pub fn tile_width(&self) -> (w: u32)
        ensures
            w == self@.tile_width,
    {
        self.tile_width
    }

    pub fn tile_height(&self) -> (h: u32)
        ensures
            h == self@.tile_height,
    {
        self.tile_height
    }

    pub fn spacing(&self) -> (s: u32)
        ensures
            s == self@.spacing,
    {
        self.spacing
    }

    pub fn margin(&self) -> (m: u32)
        ensures
            m == self@.margin,
    {
        self.margin
    }

    pub fn image_width(&self) -> (w: u32)
        ensures
            w == self@.image_width,
    {
        self.image_width
    }

    pub fn image_height(&self) -> (h: u32)
        ensures
            h == self@.image_height,
    {
        self.image_height
    }

    /// Whole tiles that fit across the image. The division truncates: a
    /// partial last column is not counted.
    pub fn tiles_per_row(&self) -> (n: u32)
        ensures
            n == self@.tiles_per_row(),
            n * self@.stride_x() <= self@.image_width < (n + 1) * self@.stride_x(),
            self@.image_width % self@.stride_x() == 0 ==> n * self@.stride_x()
                == self@.image_width,
    {
        proof {
            use_type_invariant(self);
            lemma_tiles_per_row_truncates(self@);
            if self@.image_width % self@.stride_x() == 0 {
                lemma_tiles_per_row_exact(self@);
            }
        }
        let stride: u64 = self.tile_width as u64 + self.spacing as u64;
        let n: u64 = self.image_width as u64 / stride;
        n as u32
    }

    /// Whole rows that fit down the image. The division truncates: a partial
    /// last row is not counted.
    pub fn rows(&self) -> (n: u32)
        ensures
            n == self@.rows(),
            n * self@.stride_y() <= self@.image_height < (n + 1) * self@.stride_y(),
    {
        proof {
            use_type_invariant(self);
            lemma_tiles_per_row_truncates(self@);
        }
        let stride: u64 = self.tile_height as u64 + self.spacing as u64;
        let n: u64 = self.image_height as u64 / stride;
        n as u32
    }

    /// Number of cells of the grid.
    pub fn tile_count(&self) -> (count: u64)
        ensures
            count == self@.tile_count(),
            self@.valid(),
            self@.fits_u32(),
    {
        proof {
            use_type_invariant(self);
        }
        let n: u64 = self.tiles_per_row() as u64;
        let r: u64 = self.rows() as u64;
        assert(n * r <= u64::MAX) by (nonlinear_arith)
            requires
                0 <= n <= u32::MAX,
                0 <= r <= u32::MAX,
        ;
        n * r
    }

    /// Region of cell `index`, counting cells row by row from the top left;
    /// `None` from the first index past the grid on.
    pub fn bounds(&self, index: u64) -> (result: Option<TileBounds>)
        ensures
            result is Some <==> index < self@.tile_count(),
            result matches Some(b) ==> b == self@.bounds(index as nat),
            result matches Some(b) ==> b.top_left.x == self@.left(index as nat),
            result matches Some(b) ==> b.top_left.y == self@.top(index as nat),
            result matches Some(b) ==> b.width() == self@.tile_width,
            result matches Some(b) ==> b.height() == self@.tile_height,
    {
        if index >= self.tile_count() {
            return None;
        }
        proof {
            use_type_invariant(self);
            lemma_cell_position(self@, index as nat);
            lemma_bounds_of_cell(self@, index as nat);
        }
        let per_row: u64 = self.tiles_per_row() as u64;
        let column: u64 = index % per_row;
        let row: u64 = index / per_row;
        let stride_x: u64 = self.tile_width as u64 + self.spacing as u64;
        let stride_y: u64 = self.tile_height as u64 + self.spacing as u64;
        assert(column * stride_x == self@.column(index as nat) * self@.stride_x());
        assert(row * stride_y == self@.row(index as nat) * self@.stride_y());
        let left: u64 = self.margin as u64 + column * stride_x;
        let top: u64 = self.margin as u64 + row * stride_y;
        Some(
            TileBounds {
                top_left: PixelPoint { x: left, y: top },
                bottom_right: PixelPoint {
                    x: left + self.tile_width as u64,
                    y: top + self.tile_height as u64,
                },
            },
        )
    }
}

} // verus!
