//! The whole simulation and its frame: on every frame the animations advance
//! if they are due, the input of the frame is applied if the throttle lets it
//! through, and what is visible is worked out from the state that results.
//!
//! The simulation reads time in nanoseconds, the finest count that a clock
//! gives, so that an interval counts as passed when it is exceeded by any
//! amount. The setup gives its intervals in milliseconds.

use vstd::prelude::*;
use crate::animation::{
    lemma_tick_keeps_tiles, AnimationClock, AnimationView, ClockView, SpriteCycle,
};
use crate::camera::{lemma_panned_by_adds_up, representable, Camera, Direction};
use crate::error::SimError;
use crate::geometry::{is_visible, Layout, ScreenPoint};
use crate::grid::TileGrid;
use crate::gui::{
    display_selector, display_sides_palms, display_sun, display_tiles, selector_strip,
    sun_position, sun_visible, visible_palms, visible_tiles, Placement, Selector, SUN_HEIGHT,
    SUN_WIDTH,
};
use crate::throttle::{
    elapsed, interval_passed, lemma_burst_accepts_at_most_one, lemma_spaced_events_all_accepted,
    InputThrottle, ThrottleView,
};

verus! {

/// What the simulation is set up with.
#[derive(Copy, Clone, Debug, PartialEq, Eq, Structural)]
pub struct Config {
    /// The geometry of the view.
    pub layout: Layout,
    /// The number of tiles in a full row of the grid.
    pub row_width: usize,
    /// The animations advance when more than this many milliseconds have
    /// passed, by any amount.
    pub animation_interval_ms: u64,
    /// How far one accepted step moves the camera, in layout units.
    pub camera_step: i64,
    /// An input is accepted when more than this many milliseconds have
    /// passed, by any amount.
    pub camera_interval_ms: u64,
}

impl Config {
    /// The stock setup: the stock layout, rows of 11 tiles, animations that
    /// advance every 100 milliseconds, and a camera that moves 10 pixels at
    /// most every 25 milliseconds.
    pub fn standard() -> (config: Config)
        ensures
            config.layout.tile_x_offset == -150,
            config.layout.tile_y_offset == -50,
            config.layout.h_distance == 95,
            config.layout.v_distance == 68,
            config.layout.tile_width == 500,
            config.layout.tile_height == 300,
            config.layout.window_width == 1600,
            config.layout.window_height == 1200,
            config.row_width == 11,
            config.animation_interval_ms == 100,
            config.camera_step == 20,
            config.camera_interval_ms == 25,
    {
        Config {
            layout: Layout::standard(),
            row_width: 11,
            animation_interval_ms: 100,
            camera_step: 20,
            camera_interval_ms: 25,
        }
    }
}

/// The number of nanoseconds in a millisecond.
pub const NANOSECONDS_PER_MILLISECOND: u64 = 1_000_000;

/// A time of `milliseconds` in nanoseconds, or the longest time that can be
/// held where that is shorter.
pub open spec fn in_nanoseconds(milliseconds: u64) -> u64 {
    if milliseconds * NANOSECONDS_PER_MILLISECOND <= u64::MAX {
        (milliseconds * NANOSECONDS_PER_MILLISECOND) as u64
    } else {
        u64::MAX
    }
}

/// A time of `milliseconds` in nanoseconds, or the longest time that can be
/// held where that is shorter.
pub fn nanoseconds(milliseconds: u64) -> (nanoseconds: u64)
    ensures
        nanoseconds == in_nanoseconds(milliseconds),
{
    let scale: u128 = NANOSECONDS_PER_MILLISECOND as u128;
    assert(scale == 1_000_000);
    let wide: u128 = milliseconds as u128 * scale;
    if wide <= u64::MAX as u128 {
        wide as u64
    } else {
        u64::MAX
    }
}

/// An interval given in milliseconds has passed between two times read in
/// nanoseconds exactly when more nanoseconds lie between them than the
/// interval has, also where the interval is longer than any time that can be held.
pub proof fn lemma_interval_in_nanoseconds(last: u64, milliseconds: u64, now: u64)
    ensures
        interval_passed(last, in_nanoseconds(milliseconds), now) <==> elapsed(last, now)
            > milliseconds * NANOSECONDS_PER_MILLISECOND,
{
}

/// What a key press asks for.
#[derive(Copy, Clone, Debug, PartialEq, Eq, Structural)]
pub enum Input {
    /// Move the camera one step.
    Pan(Direction),
    /// Make the selected tile show the given sprite.
    Build(usize),
}

/// What one frame shows, in the order in which it is painted: the sun at the
/// back, the tiles, the palms along the sides, and the selector strip on top.
pub struct Frame {
    pub sun: Option<ScreenPoint>,
    pub tiles: Vec<Placement>,
    pub palms: Vec<ScreenPoint>,
    pub selector: Selector,
}

/// What the simulation is, seen from outside.
pub struct WorldView {
    pub config: Config,
    /// The sprite index of every tile, in index order.
    pub sprites: Seq<usize>,
    pub camera: Camera,
    pub clock: ClockView,
    pub throttle: ThrottleView,
    /// The tile that the next build changes, if one is selected.
    pub selected: Option<usize>,
}

impl WorldView {
    /// Rows hold a tile at least, every animated tile and the selected tile
    /// lie in the grid, and no tile has two animations.
    pub open spec fn wf(self) -> bool {
        &&& self.config.row_width > 0
        &&& self.clock.fits(self.sprites.len())
        &&& self.clock.distinct_tiles()
        &&& self.selected matches Some(index) ==> index < self.sprites.len()
    }

    /// The first part of a frame: a check of the clock at `now`. When the
    /// animations advance, every animated tile shows the sprite it came to.
    pub open spec fn animated(self, now: u64) -> WorldView {
        if self.clock.due(now) {
            WorldView {
                config: self.config,
                sprites: self.clock.tick(now).painted(self.sprites),
                camera: self.camera,
                clock: self.clock.tick(now),
                throttle: self.throttle,
                selected: self.selected,
            }
        } else {
            self
        }
    }

    /// The tile that is selected after a build on the tile at `index`: the
    /// one a row further up, or the same where there is no row further up.
    pub open spec fn next_selected(self, index: usize) -> usize {
        if index >= self.config.row_width {
            (index - self.config.row_width) as usize
        } else {
            index
        }
    }

    /// The state after `action` has been let through at `now`.
    pub open spec fn applied(self, now: u64, action: Input) -> WorldView {
        match action {
            Input::Pan(direction) => WorldView {
                config: self.config,
                sprites: self.sprites,
                camera: self.camera.panned(direction, self.config.camera_step as int),
                clock: self.clock,
                throttle: self.throttle.after(now),
                selected: self.selected,
            },
            Input::Build(sprite) => match self.selected {
                Some(index) => WorldView {
                    config: self.config,
                    sprites: self.sprites.update(index as int, sprite),
                    camera: self.camera,
                    clock: self.clock,
                    throttle: self.throttle.after(now),
                    selected: Some(self.next_selected(index)),
                },
                None => WorldView {
                    config: self.config,
                    sprites: self.sprites,
                    camera: self.camera,
                    clock: self.clock,
                    throttle: self.throttle.after(now),
                    selected: self.selected,
                },
            },
        }
    }

    /// The second part of a frame: the input polled at `now`. No input
    /// changes nothing; an input is applied when the throttle accepts it at
    /// `now` and is ignored otherwise.
    pub open spec fn handled(self, now: u64, input: Option<Input>) -> WorldView {
        match input {
            Some(action) => if self.throttle.accepts(now) {
                self.applied(now, action)
            } else {
                self
            },
            None => self,
        }
    }

    /// The state after the same `action` has been polled at each of `times`,
    /// in that order.
    pub open spec fn handled_all(self, times: Seq<u64>, action: Input) -> WorldView
        decreases times.len(),
    {
        if times.len() == 0 {
            self
        } else {
            self.handled(times[0], Some(action)).handled_all(times.drop_first(), action)
        }
    }

    /// Whether `frame` is what the state shows: the sun where it is visible,
    /// the visible tiles in index order, the visible palms, and the selector
    /// strip across the window.
    pub open spec fn shown_by(self, frame: Frame) -> bool {
        &&& frame.sun == if sun_visible(self.config.layout, self.camera) {
            Some(sun_position(self.camera))
        } else {
            None
        }
        &&& frame.tiles@ == visible_tiles(
            self.sprites,
            self.config.row_width as int,
            self.config.layout,
            self.camera,
        )
        &&& frame.palms@ == visible_palms(self.config.layout, self.camera)
        &&& frame.selector == selector_strip(self.config.layout)
    }

    /// A whole frame at `now`: first the animations, then the input.
    pub open spec fn stepped(self, now: u64, input: Option<Input>) -> WorldView {
        self.animated(now).handled(now, input)
    }
}

/// However often a pan is polled, the camera takes as many steps as the
/// throttle accepts events, and nothing but the camera and the throttle changes.
pub proof fn lemma_pans_follow_throttle(world: WorldView, direction: Direction, times: Seq<u64>)
    ensures
        world.handled_all(times, Input::Pan(direction)) == (WorldView {
            camera: world.camera.panned_by(
                direction,
                world.config.camera_step as int,
                world.throttle.accepted_count(times),
            ),
            throttle: world.throttle.after_all(times),
            ..world
        }),
    decreases times.len(),
{
    if times.len() > 0 {
        let next = world.handled(times[0], Some(Input::Pan(direction)));
        lemma_pans_follow_throttle(next, direction, times.drop_first());
    }
}

/// However many pans are polled inside a window no longer than the interval
/// that starts at `start`, the camera moves once at most.
pub proof fn lemma_burst_of_pans_moves_once_at_most(
    world: WorldView,
    direction: Direction,
    start: u64,
    times: Seq<u64>,
)
    requires
        forall|i: int|
            0 <= i < times.len() ==> start <= #[trigger] times[i] && times[i] - start
                <= world.throttle.interval,
    ensures
        world.handled_all(times, Input::Pan(direction)).camera == world.camera
            || world.handled_all(times, Input::Pan(direction)).camera == world.camera.panned(
            direction,
            world.config.camera_step as int,
        ),
{
    lemma_pans_follow_throttle(world, direction, times);
    lemma_burst_accepts_at_most_one(world.throttle, start, times);
    reveal_with_fuel(Camera::panned_by, 2);
}

/// Pans that are each polled more than the interval after the one before,
/// the first of them more than the interval after the last accepted input,
/// move the camera once each: where the place that so many steps lead to can
/// be held, the camera stands there, one step further for every event.
pub proof fn lemma_spaced_pans_move_each_time(
    world: WorldView,
    direction: Direction,
    times: Seq<u64>,
)
    requires
        times.len() > 0 ==> world.throttle.accepts(times[0]),
        forall|i: int, j: int|
            0 <= i && j == i + 1 && j < times.len() ==> interval_passed(
                #[trigger] times[i],
                world.throttle.interval,
                #[trigger] times[j],
            ),
        representable(
            world.camera.pan_target(direction, times.len() * world.config.camera_step).0,
        ),
        representable(
            world.camera.pan_target(direction, times.len() * world.config.camera_step).1,
        ),
    ensures
        world.handled_all(times, Input::Pan(direction)).camera.origin_x
            == world.camera.pan_target(direction, times.len() * world.config.camera_step).0,
        world.handled_all(times, Input::Pan(direction)).camera.origin_y
            == world.camera.pan_target(direction, times.len() * world.config.camera_step).1,
{
    lemma_pans_follow_throttle(world, direction, times);
    lemma_spaced_events_all_accepted(world.throttle, times);
    lemma_panned_by_adds_up(world.camera, direction, world.config.camera_step as int, times.len());
}

/// The simulation: the grid, the camera, the animation clock and the input throttle.
pub struct World {
    config: Config,
    grid: TileGrid,
    camera: Camera,
    clock: AnimationClock,
    throttle: InputThrottle,
    selected: Option<usize>,
}

impl View for World {
    type V = WorldView;

    closed spec fn view(&self) -> WorldView {
        WorldView {
            config: self.config,
            sprites: self.grid@,
            camera: self.camera,
            clock: self.clock@,
            throttle: self.throttle@,
            selected: self.selected,
        }
    }
}

impl World {
    #[verifier::type_invariant]
    closed spec fn inv(self) -> bool {
        &&& self@.wf()
        &&& self.grid.width() == self.config.row_width
    }

    /// A simulation of `tiles` tiles that all show `default_sprite`, with the
    /// camera at rest, no animation, no tile selected, and both the clock and
    /// the throttle counting from `now`, a time in nanoseconds as every time
    /// that the simulation is given. Rows of no tiles are refused.
    pub fn new(config: Config, tiles: usize, default_sprite: usize, now: u64) -> (result: Result<
        World,
        SimError,
    >)
        ensures
            config.row_width == 0 ==> result matches Err(SimError::ZeroRowWidth),
            config.row_width > 0 ==> (result matches Ok(world) && world@ == (WorldView {
                config,
                sprites: Seq::new(tiles as nat, |i: int| default_sprite),
                camera: Camera { origin_x: 0, origin_y: 0 },
                clock: ClockView {
                    interval: in_nanoseconds(config.animation_interval_ms),
                    last_advance: now,
                    animations: Seq::empty(),
                },
                throttle: ThrottleView {
                    interval: in_nanoseconds(config.camera_interval_ms),
                    last_accepted: now,
                },
                selected: None,
            }) && world@.wf()),
    {
        match TileGrid::new(tiles, config.row_width, default_sprite) {
            Ok(grid) => Ok(
                World {
                    config,
                    grid,
                    camera: Camera::new(0, 0),
                    clock: AnimationClock::new(nanoseconds(config.animation_interval_ms), now),
                    throttle: InputThrottle::new(nanoseconds(config.camera_interval_ms), now),
                    selected: None,
                },
            ),
            Err(error) => Err(error),
        }
    }

    /// The number of tiles.
    pub fn len(&self) -> (len: usize)
        ensures
            len == self@.sprites.len(),
    {
        self.grid.len()
    }

    /// Where the camera stands.
    pub fn camera(&self) -> (camera: Camera)
        ensures
            camera == self@.camera,
    {
        self.camera
    }

    /// The tile that the next build changes, if one is selected.
    pub fn selected(&self) -> (selected: Option<usize>)
        ensures
            selected == self@.selected,
            self@.wf(),
    {
        proof {
            use_type_invariant(self);
        }
        self.selected
    }

    /// The sprite that the tile at `index` shows, or `IndexOutOfRange` at or
    /// past the end of the grid.
    pub fn sprite(&self, index: usize) -> (result: Result<usize, SimError>)
        ensures
            index < self@.sprites.len() ==> result == Ok::<usize, SimError>(
                self@.sprites[index as int],
            ),
            index >= self@.sprites.len() ==> result == Err::<usize, SimError>(
                SimError::IndexOutOfRange,
            ),
    {
        match self.grid.get(index) {
            Ok(tile) => Ok(tile.get_sprite()),
            Err(error) => Err(error),
        }
    }

    /// Makes the tile at `index` show `sprite`. At or past the end of the
    /// grid nothing changes and `IndexOutOfRange` comes back.
    pub fn set_sprite(&mut self, index: usize, sprite: usize) -> (result: Result<(), SimError>)
        ensures
            index < old(self)@.sprites.len() ==> result is Ok && final(self)@ == (WorldView {
                sprites: old(self)@.sprites.update(index as int, sprite),
                ..old(self)@
            }),
            index >= old(self)@.sprites.len() ==> (result matches Err(SimError::IndexOutOfRange))
                && final(self)@ == old(self)@,
    {
        proof {
            use_type_invariant(&*self);
        }
        self.grid.set_sprite(index, sprite)
    }

    /// Selects the tile at `index` for the next build. At or past the end of
    /// the grid the selection stays and `IndexOutOfRange` comes back.
    pub fn select(&mut self, index: usize) -> (result: Result<(), SimError>)
        ensures
            index < old(self)@.sprites.len() ==> result is Ok && final(self)@ == (WorldView {
                selected: Some(index),
                ..old(self)@
            }),
            index >= old(self)@.sprites.len() ==> (result matches Err(SimError::IndexOutOfRange))
                && final(self)@ == old(self)@,
    {
        proof {
            use_type_invariant(&*self);
        }
        if index < self.grid.len() {
            self.selected = Some(index);
            Ok(())
        } else {
            Err(SimError::IndexOutOfRange)
        }
    }

    /// Animates the tile at `tile`: it walks through `cycle` from now on, one
    /// step at every advance of the clock, and shows the first sprite of the
    /// cycle at once. Refused, with nothing changed, are in this order a tile
    /// at or past the end of the grid (`IndexOutOfRange`), a cycle without
    /// states (`EmptyCycle`) and a tile that is animated already
    /// (`DuplicateAnimation`).
    pub fn animate(&mut self, tile: usize, cycle: Vec<usize>) -> (result: Result<(), SimError>)
        ensures
            match result {
                Ok(()) => {
                    &&& tile < old(self)@.sprites.len()
                    &&& cycle@.len() > 0
                    &&& !old(self)@.clock.animates(tile as int)
                    &&& final(self)@ == (WorldView {
                        sprites: old(self)@.sprites.update(tile as int, cycle@[0]),
                        clock: ClockView {
                            animations: old(self)@.clock.animations.push(
                                AnimationView { tile, cycle: cycle@, position: 0 },
                            ),
                            ..old(self)@.clock
                        },
                        ..old(self)@
                    })
                },
                Err(error) => {
                    &&& final(self)@ == old(self)@
                    &&& error == if tile >= old(self)@.sprites.len() {
                        SimError::IndexOutOfRange
                    } else if cycle@.len() == 0 {
                        SimError::EmptyCycle
                    } else {
                        SimError::DuplicateAnimation
                    }
                    &&& tile >= old(self)@.sprites.len() || cycle@.len() == 0 || old(
                        self,
                    )@.clock.animates(tile as int)
                },
            },
    {
        proof {
            use_type_invariant(&*self);
        }
        if tile >= self.grid.len() {
            return Err(SimError::IndexOutOfRange);
        }
        match SpriteCycle::new(cycle) {
            Err(error) => Err(error),
            Ok(sprites) => {
                if self.clock.animates(tile) {
                    return Err(SimError::DuplicateAnimation);
                }
                let first = sprites.current_sprite();
                let mut clock = AnimationClock::new(0, 0);
                core::mem::swap(&mut self.clock, &mut clock);
                let ghost before = clock@;
                let _ = clock.register(tile, sprites);
                proof {
                    assert forall|i: int, j: int|
                        0 <= i < j < clock@.animations.len() implies (
                    #[trigger] clock@.animations[i]).tile != (
                    #[trigger] clock@.animations[j]).tile by {
                        if j < before.animations.len() {
                            assert(clock@.animations[i] == before.animations[i]);
                            assert(clock@.animations[j] == before.animations[j]);
                        } else {
                            assert(clock@.animations[i] == before.animations[i]);
                        }
                    }
                }
                core::mem::swap(&mut self.clock, &mut clock);
                let _ = self.grid.set_sprite(tile, first);
                Ok(())
            },
        }
    }

    /// The first part of a frame: checks the clock at `now` and says whether
    /// the animations advanced. When they did, every animated tile shows the
    /// sprite it came to.
    pub fn advance_animations(&mut self, now: u64) -> (advanced: bool)
        ensures
            advanced == old(self)@.clock.due(now),
            final(self)@ == old(self)@.animated(now),
    {
        proof {
            use_type_invariant(&*self);
            lemma_tick_keeps_tiles(self.clock@, now);
        }
        if self.clock.tick(now) {
            let _ = self.clock.paint(&mut self.grid);
            true
        } else {
            false
        }
    }

    /// The second part of a frame: takes the input polled at `now` and says
    /// whether it was applied. It is when the throttle accepts it: a pan
    /// moves the camera one step, a build makes the selected tile show the
    /// sprite and selects the tile a row further up.
    pub fn handle_input(&mut self, now: u64, input: Option<Input>) -> (applied: bool)
        ensures
            applied == (input is Some && old(self)@.throttle.accepts(now)),
            final(self)@ == old(self)@.handled(now, input),
    {
        proof {
            use_type_invariant(&*self);
        }
        match input {
            None => false,
            Some(action) => {
                if !self.throttle.accept(now) {
                    return false;
                }
                match action {
                    Input::Pan(direction) => {
                        let _ = self.camera.pan(direction, self.config.camera_step);
                    },
                    Input::Build(sprite) => {
                        match self.selected {
                            Some(index) => {
                                let _ = self.grid.set_sprite(index, sprite);
                                if index >= self.config.row_width {
                                    self.selected = Some(index - self.config.row_width);
                                }
                            },
                            None => {},
                        }
                    },
                }
                true
            },
        }
    }

    /// What the state shows: the sun if any part of it is visible in the
    /// window, the visible tiles in index order, the visible palms, and the
    /// selector strip.
    pub fn compose(&self) -> (frame: Frame)
        ensures
            self@.shown_by(frame),
    {
        proof {
            use_type_invariant(self);
        }
        let at = display_sun(&self.camera);
        let sun = if is_visible(
            &at,
            SUN_WIDTH,
            SUN_HEIGHT,
            self.config.layout.window_width,
            self.config.layout.window_height,
        ) {
            Some(at)
        } else {
            None
        };
        Frame {
            sun,
            tiles: display_tiles(&self.grid, &self.config.layout, &self.camera),
            palms: display_sides_palms(&self.config.layout, &self.camera),
            selector: display_selector(&self.config.layout),
        }
    }

    /// One frame at `now` with the input polled for it: the animations
    /// advance if they are due, then the input is applied if the throttle
    /// lets it through, and the frame shows the state that results.
    pub fn frame(&mut self, now: u64, input: Option<Input>) -> (frame: Frame)
        ensures
            final(self)@ == old(self)@.stepped(now, input),
            final(self)@.shown_by(frame),
    {
        self.advance_animations(now);
        self.handle_input(now, input);
        self.compose()
    }
}

} // verus!
