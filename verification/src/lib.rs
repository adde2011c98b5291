//! State and rendering core of an isometric tile-grid city builder.
//!
//! A fixed grid of tiles is projected onto a scrolling screen. Some tiles
//! animate over time and the viewport pans under rate-limited directional
//! input. Everything here is pure state and geometry: time arrives as a
//! count of what the clock reads, input as a plain value, and what has to be
//! painted leaves as a list of placements.
//!
//! Lengths and positions are whole numbers of layout units. The stock layout
//! counts two units to the pixel, so that a half pixel is still a whole number.

pub mod animation;
pub mod camera;
pub mod error;
pub mod geometry;
pub mod grid;
pub mod gui;
pub mod throttle;
pub mod tile;
pub mod world;

pub use crate::animation::{AnimationClock, SpriteCycle};
pub use crate::camera::{Camera, Direction};
pub use crate::error::SimError;
pub use crate::geometry::{is_visible, project, Layout, ScreenPoint, UNITS_PER_PIXEL};
pub use crate::grid::TileGrid;
pub use crate::gui::{
    anchor, display_selectable_tile, display_selector, display_sides_palms, display_sun,
    display_tiles, Color, Placement, Rectangle, SelectableTile, Selector,
};
pub use crate::throttle::InputThrottle;
pub use crate::tile::Tile;
pub use crate::world::{nanoseconds, Config, Frame, Input, World, NANOSECONDS_PER_MILLISECOND};
