//! The isometric projection of a tile onto the screen, and the test that
//! tells whether a projected sprite touches the window.

use vstd::prelude::*;
use vstd::arithmetic::div_mod::{lemma_div_pos_is_pos, lemma_fundamental_div_mod, lemma_mod_bound};
use crate::camera::Camera;

verus! {

/// A position on the screen, in layout units. The range is wide enough for
/// every tile of every grid under every camera.
#[derive(Copy, Clone, Debug, PartialEq, Eq, Structural)]
pub struct ScreenPoint {
    pub x: i128,
    pub y: i128,
}

/// The fixed geometry of the view, in layout units.
#[derive(Copy, Clone, Debug, PartialEq, Eq, Structural)]
pub struct Layout {
    /// Horizontal position of the tile in row 0, column 0 under a camera at rest.
    pub tile_x_offset: i32,
    /// Vertical position of the tile in row 0, column 0 under a camera at rest.
    pub tile_y_offset: i32,
    /// Horizontal distance between neighbours on the diamond grid.
    pub h_distance: i32,
    /// Vertical distance between neighbours on the diamond grid.
    pub v_distance: i32,
    /// Width of the box a tile sprite fills.
    pub tile_width: i32,
    /// Height of the box a tile sprite fills.
    pub tile_height: i32,
    /// Width of the window.
    pub window_width: i32,
    /// Height of the window.
    pub window_height: i32,
}

/// The number of layout units in one pixel under the stock layout.
pub const UNITS_PER_PIXEL: i32 = 2;

/// Horizontal screen position of the tile at (`row`, `column`): rows push a
/// tile to the right, columns to the left.
pub open spec fn screen_x(layout: Layout, row: int, column: int, origin_x: int) -> int {
    layout.tile_x_offset - layout.h_distance * column + layout.h_distance * row + origin_x
}

/// Vertical screen position of the tile at (`row`, `column`): rows and columns
/// both push a tile down, which is its depth.
pub open spec fn screen_y(layout: Layout, row: int, column: int, origin_y: int) -> int {
    layout.tile_y_offset + layout.v_distance * column + layout.v_distance * row + origin_y
}

/// The screen position of the tile at (`row`, `column`) under `camera`.
pub open spec fn projection(layout: Layout, row: int, column: int, camera: Camera) -> ScreenPoint {
    ScreenPoint {
        x: screen_x(layout, row, column, camera.origin_x as int) as i128,
        y: screen_y(layout, row, column, camera.origin_y as int) as i128,
    }
}

/// A sprite whose box of `sprite_width` by `sprite_height` has its corner at
/// (`x`, `y`) is visible when the box reaches into a window of `screen_width`
/// by `screen_height`, edges excluded.
pub open spec fn visible(
    x: int,
    y: int,
    sprite_width: int,
    sprite_height: int,
    screen_width: int,
    screen_height: int,
) -> bool {
    x > -sprite_width && x < screen_width && y > -sprite_height && y < screen_height
}

impl Layout {
    /// Whether a tile sprite placed at (`x`, `y`) is visible in the window.
    pub open spec fn shows(self, x: int, y: int) -> bool {
        visible(
            x,
            y,
            self.tile_width as int,
            self.tile_height as int,
            self.window_width as int,
            self.window_height as int,
        )
    }

    /// The distance that the camera covers when it crosses one full grid of
    /// rows of `row_width` tiles horizontally.
    pub open spec fn grid_span(self, row_width: int) -> int {
        row_width * self.h_distance * 2
    }

    /// The stock layout, two units to the pixel: a window of 800 by 600
    /// pixels, tile sprites of 250 by 150, neighbours 47.5 pixels apart
    /// horizontally and 34 vertically.
    pub fn standard() -> (layout: Layout)
        ensures
            layout.tile_x_offset == -150,
            layout.tile_y_offset == -50,
            layout.h_distance == 95,
            layout.v_distance == 68,
            layout.tile_width == 500,
            layout.tile_height == 300,
            layout.window_width == 1600,
            layout.window_height == 1200,
    {
        Layout {
            tile_x_offset: -150,
            tile_y_offset: -50,
            h_distance: 95,
            v_distance: 68,
            tile_width: 500,
            tile_height: 300,
            window_width: 1600,
            window_height: 1200,
        }
    }

    /// Whether a tile sprite placed at `point` is visible in the window.
    pub fn is_visible(&self, point: &ScreenPoint) -> (shown: bool)
        ensures
            shown == self.shows(point.x as int, point.y as int),
    {
        is_visible(
            point,
            self.tile_width,
            self.tile_height,
            self.window_width,
            self.window_height,
        )
    }
}

/// Projects the tile at (`row`, `column`) onto the screen under `camera`.
/// The result depends on nothing but the arguments.
pub fn project(layout: &Layout, row: usize, column: usize, camera: &Camera) -> (point: ScreenPoint)
    ensures
        point.x == screen_x(*layout, row as int, column as int, camera.origin_x as int),
        point.y == screen_y(*layout, row as int, column as int, camera.origin_y as int),
        point == projection(*layout, row as int, column as int, *camera),
    no_unwind
{
    let h: i128 = layout.h_distance as i128;
    let v: i128 = layout.v_distance as i128;
    let r: i128 = row as i128;
    let c: i128 = column as i128;
    proof {
        lemma_product_bound(h as int, c as int);
        lemma_product_bound(h as int, r as int);
        lemma_product_bound(v as int, c as int);
        lemma_product_bound(v as int, r as int);
    }
    let x: i128 = layout.tile_x_offset as i128 - h * c + h * r + camera.origin_x as i128;
    let y: i128 = layout.tile_y_offset as i128 + v * c + v * r + camera.origin_y as i128;
    ScreenPoint { x, y }
}

/// Whether a sprite of `sprite_width` by `sprite_height` placed at `point` is
/// visible in a window of `screen_width` by `screen_height`.
pub fn is_visible(
    point: &ScreenPoint,
    sprite_width: i32,
    sprite_height: i32,
    screen_width: i32,
    screen_height: i32,
) -> (shown: bool)
    ensures
        shown == visible(
            point.x as int,
            point.y as int,
            sprite_width as int,
            sprite_height as int,
            screen_width as int,
            screen_height as int,
        ),
{
    point.x > -(sprite_width as i128) && point.x < screen_width as i128 && point.y > -(
    sprite_height as i128) && point.y < screen_height as i128
}

/// Under a camera at rest the tile in row 0, column 0 stands at the tile offsets.
pub proof fn lemma_origin_tile(layout: Layout)
    ensures
        screen_x(layout, 0, 0, 0) == layout.tile_x_offset,
        screen_y(layout, 0, 0, 0) == layout.tile_y_offset,
{
}

/// For the rows and columns that a grid can have, a screen point holds the
/// projection as it is: nothing is cut off.
pub proof fn lemma_projection_is_exact(layout: Layout, row: int, column: int, camera: Camera)
    requires
        0 <= row <= u64::MAX,
        0 <= column <= u64::MAX,
    ensures
        projection(layout, row, column, camera).x == screen_x(
            layout,
            row,
            column,
            camera.origin_x as int,
        ),
        projection(layout, row, column, camera).y == screen_y(
            layout,
            row,
            column,
            camera.origin_y as int,
        ),
{
    lemma_product_bound(layout.h_distance as int, column);
    lemma_product_bound(layout.h_distance as int, row);
    lemma_product_bound(layout.v_distance as int, column);
    lemma_product_bound(layout.v_distance as int, row);
}

/// Moving the camera moves every projected tile by the same amount.
pub proof fn lemma_projection_follows_camera(
    layout: Layout,
    row: int,
    column: int,
    origin_x: int,
    origin_y: int,
    dx: int,
    dy: int,
)
    ensures
        screen_x(layout, row, column, origin_x + dx) == screen_x(layout, row, column, origin_x)
            + dx,
        screen_y(layout, row, column, origin_y + dy) == screen_y(layout, row, column, origin_y)
            + dy,
{
}

/// Shifting the camera to the right by a full grid span over and over moves
/// a tile out of the window for good: from the count that equals the distance
/// to the right edge on, the tile is hidden after every count of shifts.
pub proof fn lemma_grid_span_hides(
    layout: Layout,
    row_width: int,
    row: int,
    column: int,
    origin_x: int,
    origin_y: int,
    count: int,
)
    requires
        row_width > 0,
        layout.h_distance > 0,
        count >= 0,
        count >= layout.window_width - screen_x(layout, row, column, origin_x),
    ensures
        !layout.shows(
            screen_x(layout, row, column, origin_x + count * layout.grid_span(row_width)),
            screen_y(layout, row, column, origin_y),
        ),
{
    let span = layout.grid_span(row_width);
    assert(span >= 1) by (nonlinear_arith)
        requires
            span == row_width * layout.h_distance * 2,
            row_width >= 1,
            layout.h_distance >= 1,
    ;
    assert(count * span >= count) by (nonlinear_arith)
        requires
            count >= 0,
            span >= 1,
    ;
}

/// The other way round: a tile that is hidden to the left of the window, at
/// a height that the window covers, is visible after the returned count of
/// shifts to the right by a full grid span, as long as one span is shorter
/// than the stretch in which a tile is visible.
pub proof fn lemma_grid_span_reveals(
    layout: Layout,
    row_width: int,
    row: int,
    column: int,
    origin_x: int,
    origin_y: int,
) -> (count: int)
    requires
        row_width > 0,
        layout.h_distance > 0,
        layout.grid_span(row_width) < layout.window_width + layout.tile_width,
        screen_x(layout, row, column, origin_x) <= -layout.tile_width,
        -layout.tile_height < screen_y(layout, row, column, origin_y) < layout.window_height,
    ensures
        count > 0,
        layout.shows(
            screen_x(layout, row, column, origin_x + count * layout.grid_span(row_width)),
            screen_y(layout, row, column, origin_y),
        ),
{
    let span = layout.grid_span(row_width);
    assert(span >= 1) by (nonlinear_arith)
        requires
            span == row_width * layout.h_distance * 2,
            row_width >= 1,
            layout.h_distance >= 1,
    ;
    let gap = -layout.tile_width - screen_x(layout, row, column, origin_x);
    let whole = gap / span;
    lemma_fundamental_div_mod(gap, span);
    lemma_mod_bound(gap, span);
    lemma_div_pos_is_pos(gap, span);
    assert((whole + 1) * span == span * whole + span) by (nonlinear_arith);
    whole + 1
}

/// A layout distance times a row or column count stays far inside the range
/// of a screen coordinate.
proof fn lemma_product_bound(distance: int, count: int)
    requires
        i32::MIN <= distance <= i32::MAX,
        0 <= count <= u64::MAX,
    ensures
        -0x8000_0000_0000_0000_0000_0000 <= distance * count <= 0x8000_0000_0000_0000_0000_0000,
{
    assert(-0x8000_0000_0000_0000_0000_0000 <= distance * count
        <= 0x8000_0000_0000_0000_0000_0000) by (nonlinear_arith)
        requires
            -0x8000_0000 <= distance <= 0x8000_0000,
            0 <= count <= 0x1_0000_0000_0000_0000,
    ;
}

} // verus!
