//! What a frame shows and where: the tiles of the grid, the palms along the
//! sides, the sun, and the selector strip at the bottom of the window. Each
//! function works out positions and leaves the painting to the caller.

use vstd::prelude::*;
use crate::camera::Camera;
use crate::geometry::{
    lemma_projection_is_exact, project, projection, visible, Layout, ScreenPoint,
};
use crate::grid::{column_of, lemma_row_column_step, row_of, TileGrid};

verus! {

/// A sprite from the list of tile sprites and where to paint it.
#[derive(Copy, Clone, Debug, PartialEq, Eq, Structural)]
pub struct Placement {
    pub sprite: usize,
    pub at: ScreenPoint,
}

/// The two colours of the selector strip.
#[derive(Copy, Clone, Debug, PartialEq, Eq, Structural)]
pub enum Color {
    White,
    Black,
}

/// A filled rectangle at a fixed place in the window.
#[derive(Copy, Clone, Debug, PartialEq, Eq, Structural)]
pub struct Rectangle {
    pub color: Color,
    pub x: i32,
    pub y: i32,
    pub width: i32,
    pub height: i32,
}

/// The selector strip: a separator line and the background below it.
#[derive(Copy, Clone, Debug, PartialEq, Eq, Structural)]
pub struct Selector {
    pub separator: Rectangle,
    pub background: Rectangle,
}

/// One slot of the selector strip: where its tile goes and where its counter goes.
#[derive(Copy, Clone, Debug, PartialEq, Eq, Structural)]
pub struct SelectableTile {
    pub tile: ScreenPoint,
    pub counter: ScreenPoint,
}

/// The number of palms along each side.
pub const PALMS_PER_SIDE: usize = 14;

/// Horizontal position of the first palm of the top side under a camera at rest.
pub const TOP_PALMS_X_OFFSET: i32 = -60;

/// Vertical position of the first palm of the top side under a camera at rest.
pub const TOP_PALMS_Y_OFFSET: i32 = -100;

/// Horizontal position of the first palm of the bottom side under a camera at rest.
pub const BOTTOM_PALMS_X_OFFSET: i32 = -1200;

/// Vertical position of the first palm of the bottom side under a camera at rest.
pub const BOTTOM_PALMS_Y_OFFSET: i32 = 740;

/// Horizontal position of the sun under a camera at rest.
pub const SUN_X_OFFSET: i32 = -1460;

/// Vertical position of the sun under a camera at rest.
pub const SUN_Y_OFFSET: i32 = -520;

/// Width of the box that the sun sprite fills.
pub const SUN_WIDTH: i32 = 2000;

/// Height of the box that the sun sprite fills.
pub const SUN_HEIGHT: i32 = 1000;

/// Top edge of the separator line of the selector strip.
pub const SEPARATOR_Y: i32 = 1000;

/// Height of the separator line of the selector strip.
pub const SEPARATOR_HEIGHT: i32 = 2;

/// Top edge of the background of the selector strip.
pub const SELECTOR_Y: i32 = 1002;

/// Height of the background of the selector strip.
pub const SELECTOR_HEIGHT: i32 = 200;

/// Horizontal position of the tile of the first slot of the selector strip.
pub const FIRST_SLOT_X: i32 = -120;

/// Horizontal distance from one slot of the selector strip to the next.
pub const SLOT_DISTANCE: i32 = 240;

/// Vertical position of the tile of every slot.
pub const SLOT_TILE_Y: i32 = 980;

/// Horizontal distance from the tile of a slot to its counter.
pub const COUNTER_X_OFFSET: i32 = 320;

/// Vertical distance from the tile of a slot to its counter.
pub const COUNTER_Y_OFFSET: i32 = 200;

/// The size of the counter's digits, in pixels.
pub const COUNTER_FONT_SIZE: u32 = 16;

/// The tile at `index` of a grid with the given sprites, placed where the
/// projection puts its row and column.
pub open spec fn tile_placement(
    sprites: Seq<usize>,
    row_width: int,
    layout: Layout,
    camera: Camera,
    index: int,
) -> Placement {
    Placement {
        sprite: sprites[index],
        at: projection(layout, row_of(index, row_width), column_of(index, row_width), camera),
    }
}

/// Every tile of the grid, placed, in index order: row by row, back to front.
pub open spec fn tile_placements(
    sprites: Seq<usize>,
    row_width: int,
    layout: Layout,
    camera: Camera,
) -> Seq<Placement> {
    Seq::new(sprites.len(), |index: int| tile_placement(sprites, row_width, layout, camera, index))
}

/// The test that tells whether a placed tile is visible in the window.
pub open spec fn tile_on_screen(layout: Layout) -> spec_fn(Placement) -> bool {
    |placement: Placement| layout.shows(placement.at.x as int, placement.at.y as int)
}

/// The test that tells whether a tile sprite at a point is visible in the window.
pub open spec fn point_on_screen(layout: Layout) -> spec_fn(ScreenPoint) -> bool {
    |point: ScreenPoint| layout.shows(point.x as int, point.y as int)
}

/// The tiles to paint: those that are visible, in index order.
pub open spec fn visible_tiles(
    sprites: Seq<usize>,
    row_width: int,
    layout: Layout,
    camera: Camera,
) -> Seq<Placement> {
    tile_placements(sprites, row_width, layout, camera).filter(tile_on_screen(layout))
}

/// The layout of a row of palms: that of the tiles, anchored elsewhere.
pub open spec fn palm_row(layout: Layout, x_offset: i32, y_offset: i32) -> Layout {
    Layout {
        tile_x_offset: x_offset,
        tile_y_offset: y_offset,
        h_distance: layout.h_distance,
        v_distance: layout.v_distance,
        tile_width: layout.tile_width,
        tile_height: layout.tile_height,
        window_width: layout.window_width,
        window_height: layout.window_height,
    }
}

/// Where palm `index` stands: the top side comes first, then the bottom side,
/// and along a side each palm stands two rows further than the one before.
pub open spec fn palm_position(layout: Layout, camera: Camera, index: int) -> ScreenPoint {
    if index < PALMS_PER_SIDE {
        projection(palm_row(layout, TOP_PALMS_X_OFFSET, TOP_PALMS_Y_OFFSET), 2 * index, 0, camera)
    } else {
        projection(
            palm_row(layout, BOTTOM_PALMS_X_OFFSET, BOTTOM_PALMS_Y_OFFSET),
            2 * (index - PALMS_PER_SIDE),
            0,
            camera,
        )
    }
}

/// Every palm of both sides, placed.
pub open spec fn palm_positions(layout: Layout, camera: Camera) -> Seq<ScreenPoint> {
    Seq::new((2 * PALMS_PER_SIDE) as nat, |index: int| palm_position(layout, camera, index))
}

/// The palms to paint: those that are visible.
pub open spec fn visible_palms(layout: Layout, camera: Camera) -> Seq<ScreenPoint> {
    palm_positions(layout, camera).filter(point_on_screen(layout))
}

/// Where a sprite stands under `camera` that stands at (`x_offset`,
/// `y_offset`) under a camera at rest.
pub open spec fn anchored(camera: Camera, x_offset: i32, y_offset: i32) -> ScreenPoint {
    ScreenPoint {
        x: (x_offset + camera.origin_x) as i128,
        y: (y_offset + camera.origin_y) as i128,
    }
}

/// Where the sun stands under `camera`.
pub open spec fn sun_position(camera: Camera) -> ScreenPoint {
    anchored(camera, SUN_X_OFFSET, SUN_Y_OFFSET)
}

/// Whether the sun is visible in the window under `camera`.
pub open spec fn sun_visible(layout: Layout, camera: Camera) -> bool {
    visible(
        SUN_X_OFFSET + camera.origin_x,
        SUN_Y_OFFSET + camera.origin_y,
        SUN_WIDTH as int,
        SUN_HEIGHT as int,
        layout.window_width as int,
        layout.window_height as int,
    )
}

/// Where the tile of slot `index` of the selector strip stands.
pub open spec fn slot_x(index: u8) -> int {
    FIRST_SLOT_X + index * SLOT_DISTANCE
}

/// The selector strip of a window as wide as that of `layout`: a white
/// separator line across the window and a black background below it.
pub open spec fn selector_strip(layout: Layout) -> Selector {
    Selector {
        separator: Rectangle {
            color: Color::White,
            x: 0,
            y: SEPARATOR_Y,
            width: layout.window_width,
            height: SEPARATOR_HEIGHT,
        },
        background: Rectangle {
            color: Color::Black,
            x: 0,
            y: SELECTOR_Y,
            width: layout.window_width,
            height: SELECTOR_HEIGHT,
        },
    }
}

/// The two rectangles of the selector strip at the bottom of the window: a
/// white separator line across the window and a black background below it.
pub fn display_selector(layout: &Layout) -> (selector: Selector)
    ensures
        selector == selector_strip(*layout),
{
    Selector {
        separator: Rectangle {
            color: Color::White,
            x: 0,
            y: SEPARATOR_Y,
            width: layout.window_width,
            height: SEPARATOR_HEIGHT,
        },
        background: Rectangle {
            color: Color::Black,
            x: 0,
            y: SELECTOR_Y,
            width: layout.window_width,
            height: SELECTOR_HEIGHT,
        },
    }
}

/// Where slot `index` of the selector strip shows its tile and its counter.
/// Slots stand side by side from the left; the counter stands to the lower
/// right of the tile.
pub fn display_selectable_tile(index: u8) -> (slot: SelectableTile)
    ensures
        slot.tile.x == slot_x(index),
        slot.tile.y == SLOT_TILE_Y,
        slot.counter.x == slot_x(index) + COUNTER_X_OFFSET,
        slot.counter.y == SLOT_TILE_Y + COUNTER_Y_OFFSET,
{
    let distance: i128 = SLOT_DISTANCE as i128;
    assert(distance == 240);
    let x: i128 = FIRST_SLOT_X as i128 + index as i128 * distance;
    SelectableTile {
        tile: ScreenPoint { x, y: SLOT_TILE_Y as i128 },
        counter: ScreenPoint {
            x: x + COUNTER_X_OFFSET as i128,
            y: SLOT_TILE_Y as i128 + COUNTER_Y_OFFSET as i128,
        },
    }
}

/// Where to paint, under `camera`, a sprite that moves with the world and
/// stands at (`x_offset`, `y_offset`) under a camera at rest.
pub fn anchor(camera: &Camera, x_offset: i32, y_offset: i32) -> (point: ScreenPoint)
    ensures
        point.x == x_offset + camera.origin_x,
        point.y == y_offset + camera.origin_y,
        point == anchored(*camera, x_offset, y_offset),
{
    ScreenPoint {
        x: x_offset as i128 + camera.origin_x as i128,
        y: y_offset as i128 + camera.origin_y as i128,
    }
}

/// Where the sun is painted under `camera`, wherever that is: whether any
/// part of the sun is visible there is for the caller to tell.
pub fn display_sun(camera: &Camera) -> (sun: ScreenPoint)
    ensures
        sun == sun_position(*camera),
        sun.x == SUN_X_OFFSET + camera.origin_x,
        sun.y == SUN_Y_OFFSET + camera.origin_y,
{
    anchor(camera, SUN_X_OFFSET, SUN_Y_OFFSET)
}

/// Where to paint the palms along the sides under `camera`: first those of
/// the top side, then those of the bottom side, the hidden ones left out.
pub fn display_sides_palms(layout: &Layout, camera: &Camera) -> (palms: Vec<ScreenPoint>)
    ensures
        palms@ == visible_palms(*layout, *camera),
{
    let top = Layout {
        tile_x_offset: TOP_PALMS_X_OFFSET,
        tile_y_offset: TOP_PALMS_Y_OFFSET,
        h_distance: layout.h_distance,
        v_distance: layout.v_distance,
        tile_width: layout.tile_width,
        tile_height: layout.tile_height,
        window_width: layout.window_width,
        window_height: layout.window_height,
    };
    let bottom = Layout {
        tile_x_offset: BOTTOM_PALMS_X_OFFSET,
        tile_y_offset: BOTTOM_PALMS_Y_OFFSET,
        h_distance: layout.h_distance,
        v_distance: layout.v_distance,
        tile_width: layout.tile_width,
        tile_height: layout.tile_height,
        window_width: layout.window_width,
        window_height: layout.window_height,
    };
    let ghost all = palm_positions(*layout, *camera);
    let mut palms: Vec<ScreenPoint> = Vec::new();
    let mut index: usize = 0;
    proof {
        assert(all.take(0) =~= Seq::<ScreenPoint>::empty());
        all.take(0).lemma_filter_len(point_on_screen(*layout));
    }
    while index < 2 * PALMS_PER_SIDE
        invariant
            index <= 2 * PALMS_PER_SIDE,
            all == palm_positions(*layout, *camera),
            top == palm_row(*layout, TOP_PALMS_X_OFFSET, TOP_PALMS_Y_OFFSET),
            bottom == palm_row(*layout, BOTTOM_PALMS_X_OFFSET, BOTTOM_PALMS_Y_OFFSET),
            palms@ == all.take(index as int).filter(point_on_screen(*layout)),
        decreases 2 * PALMS_PER_SIDE - index,
    {
        let at = if index >= PALMS_PER_SIDE {
            project(&bottom, 2 * (index - PALMS_PER_SIDE), 0, camera)
        } else {
            project(&top, 2 * index, 0, camera)
        };
        proof {
            assert(at == all[index as int]);
            all.lemma_take_succ_push(index as int);
            all.take(index as int).lemma_filter_push(at, point_on_screen(*layout));
        }
        if layout.is_visible(&at) {
            palms.push(at);
        }
        index = index + 1;
    }
    proof {
        assert(all.take(index as int) =~= all);
    }
    palms
}

/// The tiles to paint under `camera`, each with its sprite and its place on
/// the screen: the visible ones, row by row in index order, which is back to
/// front. A hidden tile is left out and still counts for the row and column
/// of the tiles after it.
pub fn display_tiles(tiles: &TileGrid, layout: &Layout, camera: &Camera) -> (placements: Vec<
    Placement,
>)
    ensures
        placements@ == visible_tiles(tiles@, tiles.width() as int, *layout, *camera),
{
    let count = tiles.len();
    let row_width = tiles.row_width();
    let ghost all = tile_placements(tiles@, row_width as int, *layout, *camera);
    let mut placements: Vec<Placement> = Vec::new();
    let mut column: usize = 0;
    let mut line: usize = 0;
    let mut index: usize = 0;
    proof {
        assert(all.take(0) =~= Seq::<Placement>::empty());
        all.take(0).lemma_filter_len(tile_on_screen(*layout));
    }
    while index < count
        invariant
            index <= count,
            count == tiles@.len(),
            row_width == tiles.width(),
            row_width > 0,
            all == tile_placements(tiles@, row_width as int, *layout, *camera),
            index == 0 ==> column == 0 && line == 0,
            index > 0 ==> line == row_of(index - 1, row_width as int) && column == column_of(
                index - 1,
                row_width as int,
            ) + 1,
            placements@ == all.take(index as int).filter(tile_on_screen(*layout)),
        decreases count - index,
    {
        proof {
            if index > 0 {
                lemma_row_column_step(index - 1, row_width as int);
            }
            lemma_row_column_step(index as int, row_width as int);
            lemma_row_bound(index as int, row_width as int);
        }
        if index != 0 && index % row_width == 0 {
            column = 0;
            line = line + 1;
        }
        assert(line == row_of(index as int, row_width as int));
        assert(column == column_of(index as int, row_width as int));
        let at = project(layout, line, column, camera);
        let shown = layout.is_visible(&at);
        match tiles.get(index) {
            Ok(tile) => {
                let placement = Placement { sprite: tile.get_sprite(), at };
                proof {
                    assert(placement == all[index as int]);
                    all.lemma_take_succ_push(index as int);
                    all.take(index as int).lemma_filter_push(placement, tile_on_screen(*layout));
                }
                if shown {
                    placements.push(placement);
                }
            },
            Err(_) => {},
        }
        column = column + 1;
        index = index + 1;
    }
    proof {
        assert(all.take(index as int) =~= all);
    }
    placements
}

/// What is painted of the grid is what is visible of it: every tile that is
/// painted is a tile of the grid in its place and visible there, every tile
/// of the grid that is visible in its place is painted, and never more tiles
/// are painted than the grid has.
pub proof fn lemma_visible_tiles_are_the_shown_tiles(
    sprites: Seq<usize>,
    row_width: int,
    layout: Layout,
    camera: Camera,
)
    ensures
        visible_tiles(sprites, row_width, layout, camera).len() <= sprites.len(),
        forall|k: int|
            0 <= k < visible_tiles(sprites, row_width, layout, camera).len() ==> {
                let placement = #[trigger] visible_tiles(sprites, row_width, layout, camera)[k];
                &&& layout.shows(placement.at.x as int, placement.at.y as int)
                &&& tile_placements(sprites, row_width, layout, camera).contains(placement)
            },
        forall|index: int|
            0 <= index < sprites.len() && layout.shows(
                tile_placement(sprites, row_width, layout, camera, index).at.x as int,
                tile_placement(sprites, row_width, layout, camera, index).at.y as int,
            ) ==> visible_tiles(sprites, row_width, layout, camera).contains(
                #[trigger] tile_placement(sprites, row_width, layout, camera, index),
            ),
{
    let all = tile_placements(sprites, row_width, layout, camera);
    let shown = tile_on_screen(layout);
    all.lemma_filter_len(shown);
    assert forall|k: int| 0 <= k < all.filter(shown).len() implies {
        let placement = #[trigger] all.filter(shown)[k];
        &&& layout.shows(placement.at.x as int, placement.at.y as int)
        &&& all.contains(placement)
    } by {
        all.lemma_filter_pred(shown, k);
        all.lemma_filter_contains_rev(shown, all.filter(shown)[k]);
    }
    assert forall|index: int|
        0 <= index < sprites.len() && layout.shows(
            tile_placement(sprites, row_width, layout, camera, index).at.x as int,
            tile_placement(sprites, row_width, layout, camera, index).at.y as int,
        ) implies all.filter(shown).contains(
        #[trigger] tile_placement(sprites, row_width, layout, camera, index),
    ) by {
        assert(all[index] == tile_placement(sprites, row_width, layout, camera, index));
        all.lemma_filter_contains(shown, index);
    }
}

/// A camera that moves takes every palm with it: each palm stands as far
/// from where it stood as the camera from where it stood.
pub proof fn lemma_palms_follow_camera(layout: Layout, camera: Camera, moved: Camera, index: int)
    requires
        0 <= index < 2 * PALMS_PER_SIDE,
    ensures
        palm_position(layout, moved, index).x == palm_position(layout, camera, index).x + (
        moved.origin_x - camera.origin_x),
        palm_position(layout, moved, index).y == palm_position(layout, camera, index).y + (
        moved.origin_y - camera.origin_y),
{
    let along = if index < PALMS_PER_SIDE {
        2 * index
    } else {
        2 * (index - PALMS_PER_SIDE)
    };
    let row = if index < PALMS_PER_SIDE {
        palm_row(layout, TOP_PALMS_X_OFFSET, TOP_PALMS_Y_OFFSET)
    } else {
        palm_row(layout, BOTTOM_PALMS_X_OFFSET, BOTTOM_PALMS_Y_OFFSET)
    };
    lemma_projection_is_exact(row, along, 0, camera);
    lemma_projection_is_exact(row, along, 0, moved);
}

/// A camera that moves takes every tile with it: each tile stands as far
/// from where it stood as the camera from where it stood, and shows the
/// sprite it showed.
pub proof fn lemma_tiles_follow_camera(
    sprites: Seq<usize>,
    row_width: int,
    layout: Layout,
    camera: Camera,
    moved: Camera,
    index: int,
)
    requires
        0 < row_width,
        0 <= index <= u64::MAX,
    ensures
        tile_placement(sprites, row_width, layout, moved, index).sprite == tile_placement(
            sprites,
            row_width,
            layout,
            camera,
            index,
        ).sprite,
        tile_placement(sprites, row_width, layout, moved, index).at.x == tile_placement(
            sprites,
            row_width,
            layout,
            camera,
            index,
        ).at.x + (moved.origin_x - camera.origin_x),
        tile_placement(sprites, row_width, layout, moved, index).at.y == tile_placement(
            sprites,
            row_width,
            layout,
            camera,
            index,
        ).at.y + (moved.origin_y - camera.origin_y),
{
    lemma_row_bound(index, row_width);
    lemma_row_column_step(index, row_width);
    vstd::arithmetic::div_mod::lemma_mod_decreases(index as nat, row_width as nat);
    lemma_projection_is_exact(
        layout,
        row_of(index, row_width),
        column_of(index, row_width),
        camera,
    );
    lemma_projection_is_exact(layout, row_of(index, row_width), column_of(index, row_width), moved);
}

/// The row of a tile is never past its index.
proof fn lemma_row_bound(index: int, row_width: int)
    requires
        0 <= index,
        0 < row_width,
    ensures
        0 <= row_of(index, row_width) <= index,
{
    vstd::arithmetic::div_mod::lemma_div_pos_is_pos(index, row_width);
    vstd::arithmetic::div_mod::lemma_div_is_ordered_by_denominator(index, 1, row_width);
}

} // verus!
