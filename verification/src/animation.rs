//! Time-driven sprite cycles. Every animated tile walks through its own fixed
//! cycle of sprites, and all of them share one clock: when more than the
//! interval has passed, each takes exactly one step and the clock starts over.
//! Times and the interval are counts of one and the same unit.

use vstd::prelude::*;
use vstd::arithmetic::div_mod::{
    lemma_add_mod_noop, lemma_fundamental_div_mod_converse, lemma_mod_bound, lemma_mod_self_0,
    lemma_small_mod,
};
use crate::error::SimError;
use crate::grid::TileGrid;
use crate::throttle::{
    has_interval_passed, interval_passed, lemma_burst_accepts_at_most_one,
    lemma_spaced_events_all_accepted, ThrottleView,
};

verus! {

/// What an animation is, seen from outside.
pub struct AnimationView {
    /// The index of the animated tile.
    pub tile: usize,
    /// The sprites that the tile walks through, in order.
    pub cycle: Seq<usize>,
    /// Where in the cycle the tile stands.
    pub position: nat,
}

impl AnimationView {
    /// The position lies inside the cycle, so the cycle has a state at all.
    pub open spec fn wf(self) -> bool {
        self.position < self.cycle.len()
    }

    /// The sprite that the tile shows now.
    pub open spec fn current(self) -> usize {
        self.cycle[self.position as int]
    }

    /// One step on: the next state of the cycle, the first after the last.
    pub open spec fn advance(self) -> AnimationView {
        AnimationView {
            tile: self.tile,
            cycle: self.cycle,
            position: if self.position + 1 == self.cycle.len() {
                0
            } else {
                self.position + 1
            },
        }
    }

    /// `steps` steps on.
    pub open spec fn advance_by(self, steps: nat) -> AnimationView
        decreases steps,
    {
        if steps == 0 {
            self
        } else {
            self.advance_by((steps - 1) as nat).advance()
        }
    }
}

/// A step leads to a state of the same cycle of the same tile: the sprite
/// shown always belongs to the cycle.
pub proof fn lemma_advance_stays_in_cycle(animation: AnimationView)
    requires
        animation.wf(),
    ensures
        animation.advance().wf(),
        animation.advance().cycle == animation.cycle,
        animation.advance().tile == animation.tile,
        animation.cycle.contains(animation.current()),
        animation.cycle.contains(animation.advance().current()),
{
    assert(animation.cycle[animation.position as int] == animation.current());
    assert(animation.cycle[animation.advance().position as int] == animation.advance().current());
}

/// After any number of steps the tile stands that many states further on,
/// counted round the cycle.
pub proof fn lemma_advance_by_position(animation: AnimationView, steps: nat)
    requires
        animation.wf(),
    ensures
        animation.advance_by(steps).wf(),
        animation.advance_by(steps).tile == animation.tile,
        animation.advance_by(steps).cycle == animation.cycle,
        animation.advance_by(steps).position == (animation.position as int + steps as int) % (
        animation.cycle.len() as int),
    decreases steps,
{
    let len = animation.cycle.len() as int;
    if steps == 0 {
        lemma_small_mod(animation.position, animation.cycle.len());
    } else {
        let before = animation.advance_by((steps - 1) as nat);
        lemma_advance_by_position(animation, (steps - 1) as nat);
        lemma_advance_stays_in_cycle(before);
        lemma_add_one_mod(animation.position as int + steps as int - 1, len);
        lemma_mod_bound(animation.position as int + steps as int, len);
        if before.position + 1 == len {
            lemma_mod_self_0(len);
        } else {
            lemma_small_mod((before.position + 1) as nat, len as nat);
        }
    }
}

/// A cycle of two states toggles: one step leads to the other state, two
/// steps lead back.
pub proof fn lemma_two_state_toggle(animation: AnimationView)
    requires
        animation.wf(),
        animation.cycle.len() == 2,
    ensures
        animation.advance().position == 1 - animation.position,
        animation.advance().current() == animation.cycle[1 - animation.position],
        animation.advance().advance() == animation,
{
}

/// As many steps as the cycle has states lead back to where the tile stood.
pub proof fn lemma_full_cycle_returns(animation: AnimationView)
    requires
        animation.wf(),
    ensures
        animation.advance_by(animation.cycle.len()) == animation,
{
    let len = animation.cycle.len() as int;
    lemma_advance_by_position(animation, animation.cycle.len());
    lemma_fundamental_div_mod_converse(
        animation.position as int + len,
        len,
        1,
        animation.position as int,
    );
}

/// What the animation clock is, seen from outside.
pub struct ClockView {
    /// The least time between two advances, exclusive.
    pub interval: u64,
    /// When the animations last advanced.
    pub last_advance: u64,
    /// The animations, in the order in which they were registered.
    pub animations: Seq<AnimationView>,
}

impl ClockView {
    /// No tile has two animations.
    pub open spec fn distinct_tiles(self) -> bool {
        forall|i: int, j: int|
            0 <= i < j < self.animations.len() ==> (#[trigger] self.animations[i]).tile != (
            #[trigger] self.animations[j]).tile
    }

    /// Whether the tile at index `tile` is animated.
    pub open spec fn animates(self, tile: int) -> bool {
        exists|i: int| 0 <= i < self.animations.len() && (#[trigger] self.animations[i]).tile == tile
    }

    /// Whether every animated tile lies in a grid of `tiles` tiles.
    pub open spec fn fits(self, tiles: nat) -> bool {
        forall|i: int| 0 <= i < self.animations.len() ==> (#[trigger] self.animations[i]).tile < tiles
    }

    /// The sprite that the tile at index `tile` shows once the animations
    /// have been painted over `sprites`: the current sprite of its animation
    /// where it has one, and the sprite it had otherwise.
    pub open spec fn sprite_of(self, sprites: Seq<usize>, tile: int) -> usize {
        if self.animates(tile) {
            let i = choose|i: int|
                0 <= i < self.animations.len() && (#[trigger] self.animations[i]).tile == tile;
            self.animations[i].current()
        } else {
            sprites[tile]
        }
    }

    /// The sprites of a grid after the animations have been painted over `sprites`.
    pub open spec fn painted(self, sprites: Seq<usize>) -> Seq<usize> {
        Seq::new(sprites.len(), |tile: int| self.sprite_of(sprites, tile))
    }

    /// The timing of the clock on its own: it lets an advance through as a
    /// throttle lets an event through.
    pub open spec fn gate(self) -> ThrottleView {
        ThrottleView { interval: self.interval, last_accepted: self.last_advance }
    }

    /// Whether a check at `now` advances the animations: strictly more than
    /// the interval has passed since the last advance.
    pub open spec fn due(self, now: u64) -> bool {
        interval_passed(self.last_advance, self.interval, now)
    }

    /// Every animation `steps` steps on.
    pub open spec fn stepped(self, steps: nat) -> Seq<AnimationView> {
        Seq::new(self.animations.len(), |i: int| self.animations[i].advance_by(steps))
    }

    /// The clock after a check at `now`. When due, every animation is one
    /// step on and the clock starts over from `now`; otherwise nothing changes.
    pub open spec fn tick(self, now: u64) -> ClockView {
        if self.due(now) {
            ClockView {
                interval: self.interval,
                last_advance: now,
                animations: self.stepped(1),
            }
        } else {
            self
        }
    }

    /// The clock after the checks at `times`, made in that order.
    pub open spec fn tick_all(self, times: Seq<u64>) -> ClockView
        decreases times.len(),
    {
        if times.len() == 0 {
            self
        } else {
            self.tick(times[0]).tick_all(times.drop_first())
        }
    }
}

/// A cycle of sprites and where in it a tile stands. The sprites are fixed
/// once the cycle is made; only the position moves.
pub struct SpriteCycle {
    sprites: Vec<usize>,
    position: usize,
}

impl SpriteCycle {
    #[verifier::type_invariant]
    closed spec fn inv(self) -> bool {
        self.position < self.sprites@.len()
    }

    /// The sprites of the cycle, in order.
    pub closed spec fn sprites(&self) -> Seq<usize> {
        self.sprites@
    }

    /// Where in the cycle the tile stands.
    pub closed spec fn position(&self) -> nat {
        self.position as nat
    }

    /// The cycle as the animation of the tile at index `tile`.
    pub open spec fn of_tile(&self, tile: usize) -> AnimationView {
        AnimationView { tile, cycle: self.sprites(), position: self.position() }
    }

    /// A cycle through `sprites` that stands at the first of them. A cycle
    /// without states is refused.
    pub fn new(sprites: Vec<usize>) -> (result: Result<SpriteCycle, SimError>)
        ensures
            sprites@.len() == 0 ==> result matches Err(SimError::EmptyCycle),
            sprites@.len() > 0 ==> (result matches Ok(cycle) && cycle.sprites() == sprites@
                && cycle.position() == 0),
    {
        if sprites.len() == 0 {
            Err(SimError::EmptyCycle)
        } else {
            Ok(SpriteCycle { sprites, position: 0 })
        }
    }

    /// The number of states, which is never zero.
    pub fn len(&self) -> (len: usize)
        ensures
            len == self.sprites().len(),
            len > 0,
        no_unwind
    {
        proof {
            use_type_invariant(self);
        }
        self.sprites.len()
    }

    /// The sprite of the state at which the tile stands.
    pub fn current_sprite(&self) -> (sprite: usize)
        ensures
            self.position() < self.sprites().len(),
            sprite == self.sprites()[self.position() as int],
        no_unwind
    {
        proof {
            use_type_invariant(self);
        }
        self.sprites[self.position]
    }

    /// Takes one step: to the next state of the cycle, from the last state
    /// back to the first.
    pub fn advance(&mut self)
        ensures
            final(self).sprites() == old(self).sprites(),
            final(self).position() == if old(self).position() + 1 == old(self).sprites().len() {
                0
            } else {
                old(self).position() + 1
            },
        no_unwind
    {
        let len = self.sprites.len();
        proof {
            use_type_invariant(&*self);
        }
        if self.position + 1 == len {
            self.position = 0;
        } else {
            self.position = self.position + 1;
        }
    }
}

/// The animated tiles and their cycles, side by side in the order in which
/// they were registered.
struct Registry {
    tiles: Vec<usize>,
    cycles: Vec<SpriteCycle>,
}

impl Registry {
    spec fn animations(self) -> Seq<AnimationView> {
        Seq::new(self.tiles@.len(), |i: int| self.cycles@[i].of_tile(self.tiles@[i]))
    }

    spec fn wf(self) -> bool {
        &&& self.tiles@.len() == self.cycles@.len()
        &&& forall|i: int, j: int|
            0 <= i < j < self.tiles@.len() ==> #[trigger] self.tiles@[i] != #[trigger] self.tiles@[j]
    }
}

/// The clock that all animated tiles share.
pub struct AnimationClock {
    interval: u64,
    last_advance: u64,
    registry: Registry,
}

impl View for AnimationClock {
    type V = ClockView;

    closed spec fn view(&self) -> ClockView {
        ClockView {
            interval: self.interval,
            last_advance: self.last_advance,
            animations: self.registry.animations(),
        }
    }
}

impl AnimationClock {
    #[verifier::type_invariant]
    closed spec fn inv(self) -> bool {
        self.registry.wf()
    }

    /// A clock without animations that advances when more than `interval` has
    /// passed, counting from `now`.
    pub fn new(interval: u64, now: u64) -> (clock: AnimationClock)
        ensures
            clock@ == (ClockView { interval, last_advance: now, animations: Seq::empty() }),
    {
        let clock = AnimationClock {
            interval,
            last_advance: now,
            registry: Registry { tiles: Vec::new(), cycles: Vec::new() },
        };
        assert(clock@.animations =~= Seq::empty());
        clock
    }

    /// The number of animations.
    pub fn len(&self) -> (len: usize)
        ensures
            len == self@.animations.len(),
        no_unwind
    {
        self.registry.tiles.len()
    }

    /// The animated tile and the sprite it shows now, for the animation at
    /// `index` in the order of registration; nothing at or past the end.
    pub fn showing(&self, index: usize) -> (entry: Option<(usize, usize)>)
        ensures
            self@.distinct_tiles(),
            index < self@.animations.len() ==> self@.animations[index as int].wf() && entry
                == Some(
                (self@.animations[index as int].tile, self@.animations[index as int].current()),
            ),
            index >= self@.animations.len() ==> entry.is_none(),
        no_unwind
    {
        proof {
            use_type_invariant(self);
        }
        if index < self.registry.tiles.len() {
            Some((self.registry.tiles[index], self.registry.cycles[index].current_sprite()))
        } else {
            None
        }
    }

    /// Whether the tile at index `tile` is animated.
    pub fn animates(&self, tile: usize) -> (found: bool)
        ensures
            found == self@.animates(tile as int),
        no_unwind
    {
        let mut index: usize = 0;
        while index < self.registry.tiles.len()
            invariant
                index <= self.registry.tiles@.len(),
                forall|i: int| 0 <= i < index ==> (#[trigger] self@.animations[i]).tile != tile,
            decreases self.registry.tiles@.len() - index,
        {
            if self.registry.tiles[index] == tile {
                assert(self@.animations[index as int].tile == tile);
                return true;
            }
            index = index + 1;
        }
        false
    }

    /// Gives the tile at index `tile` the cycle `cycle`, after the animations
    /// that are there. A tile that is animated already keeps the cycle it
    /// has, and `DuplicateAnimation` comes back.
    pub fn register(&mut self, tile: usize, cycle: SpriteCycle) -> (result: Result<(), SimError>)
        ensures
            old(self)@.animates(tile as int) ==> (result matches Err(
                SimError::DuplicateAnimation,
            )) && final(self)@ == old(self)@,
            !old(self)@.animates(tile as int) ==> result is Ok && final(self)@ == (ClockView {
                interval: old(self)@.interval,
                last_advance: old(self)@.last_advance,
                animations: old(self)@.animations.push(cycle.of_tile(tile)),
            }),
    {
        proof {
            use_type_invariant(&*self);
        }
        if self.animates(tile) {
            return Err(SimError::DuplicateAnimation);
        }
        let mut registry = Registry { tiles: Vec::new(), cycles: Vec::new() };
        core::mem::swap(&mut self.registry, &mut registry);
        registry.tiles.push(tile);
        registry.cycles.push(cycle);
        proof {
            assert(registry.animations() =~= old(self)@.animations.push(cycle.of_tile(tile)));
            assert forall|i: int, j: int| 0 <= i < j < registry.tiles@.len() implies (
            #[trigger] registry.tiles@[i]) != (#[trigger] registry.tiles@[j]) by {
                if j == registry.tiles@.len() - 1 {
                    assert(old(self)@.animations[i].tile == registry.tiles@[i]);
                }
            }
        }
        core::mem::swap(&mut self.registry, &mut registry);
        Ok(())
    }

    /// Makes every animated tile of `grid` show the current sprite of its
    /// animation and leaves the other tiles alone. Where an animated tile
    /// lies past the end of the grid, nothing is painted and
    /// `IndexOutOfRange` comes back.
    pub fn paint(&self, grid: &mut TileGrid) -> (result: Result<(), SimError>)
        ensures
            final(grid).width() == old(grid).width(),
            self@.fits(old(grid)@.len()) ==> result is Ok && final(grid)@ == self@.painted(
                old(grid)@,
            ),
            !self@.fits(old(grid)@.len()) ==> (result matches Err(SimError::IndexOutOfRange))
                && final(grid)@ == old(grid)@,
        no_unwind
    {
        proof {
            use_type_invariant(self);
        }
        let tiles = grid.len();
        let count = self.registry.tiles.len();
        let mut index: usize = 0;
        while index < count
            invariant
                index <= count,
                count == self.registry.tiles@.len(),
                *grid == *old(grid),
                tiles == grid@.len(),
                forall|i: int| 0 <= i < index ==> (#[trigger] self@.animations[i]).tile < tiles,
            decreases count - index,
        {
            if self.registry.tiles[index] >= tiles {
                assert(!(self@.animations[index as int].tile < tiles));
                return Err(SimError::IndexOutOfRange);
            }
            index = index + 1;
        }
        index = 0;
        while index < count
            invariant
                self.registry.wf(),
                index <= count,
                count == self.registry.tiles@.len(),
                self@.fits(tiles as nat),
                grid.width() == old(grid).width(),
                grid@.len() == old(grid)@.len(),
                tiles == grid@.len(),
                forall|i: int|
                    0 <= i < index ==> grid@[(#[trigger] self@.animations[i]).tile as int]
                        == self@.animations[i].current(),
                forall|tile: int|
                    0 <= tile < tiles && (forall|i: int|
                        0 <= i < index ==> (#[trigger] self@.animations[i]).tile != tile)
                        ==> #[trigger] grid@[tile] == old(grid)@[tile],
            decreases count - index,
        {
            let tile = self.registry.tiles[index];
            let sprite = self.registry.cycles[index].current_sprite();
            let ghost previous = grid@;
            assert(self@.animations[index as int].tile == tile);
            let _ = grid.set_sprite(tile, sprite);
            proof {
                assert forall|i: int| 0 <= i < index + 1 implies grid@[(
                #[trigger] self@.animations[i]).tile as int] == self@.animations[i].current() by {
                    if i < index {
                        assert(self.registry.tiles@[i] != self.registry.tiles@[index as int]);
                        assert(previous[self@.animations[i].tile as int]
                            == self@.animations[i].current());
                    }
                }
            }
            index = index + 1;
        }
        proof {
            assert forall|tile: int| 0 <= tile < tiles implies grid@[tile] == self@.sprite_of(
                old(grid)@,
                tile,
            ) by {
                if self@.animates(tile) {
                    let i = choose|i: int|
                        0 <= i < self@.animations.len() && (#[trigger] self@.animations[i]).tile
                            == tile;
                    assert(grid@[self@.animations[i].tile as int] == self@.animations[i].current());
                }
            }
            assert(grid@ =~= self@.painted(old(grid)@));
        }
        Ok(())
    }

    /// Whether a check at `now` would advance the animations.
    pub fn is_due(&self, now: u64) -> (due: bool)
        ensures
            due == self@.due(now),
        no_unwind
    {
        has_interval_passed(self.last_advance, self.interval, now)
    }

    /// Checks the clock at `now` and says whether the animations advanced.
    /// They do when strictly more than the interval has passed since the last
    /// advance: every animation then takes exactly one step and the clock
    /// starts over from `now`. Otherwise nothing changes.
    pub fn tick(&mut self, now: u64) -> (advanced: bool)
        ensures
            advanced == old(self)@.due(now),
            final(self)@ == old(self)@.tick(now),
        no_unwind
    {
        proof {
            use_type_invariant(&*self);
        }
        if !has_interval_passed(self.last_advance, self.interval, now) {
            return false;
        }
        let ghost before = self@;
        let mut index: usize = 0;
        while index < self.registry.cycles.len()
            invariant
                self.registry.wf(),
                index <= self.registry.cycles@.len(),
                self.registry.tiles == old(self).registry.tiles,
                self.registry.cycles@.len() == old(self).registry.cycles@.len(),
                self.interval == before.interval,
                self.last_advance == before.last_advance,
                before == old(self)@,
                forall|i: int|
                    0 <= i < index ==> (#[trigger] self.registry.cycles@[i]).of_tile(
                        self.registry.tiles@[i],
                    ) == before.animations[i].advance(),
                forall|i: int|
                    index <= i < self.registry.cycles@.len() ==> (
                    #[trigger] self.registry.cycles@[i]) == old(self).registry.cycles@[i],
            decreases self.registry.cycles@.len() - index,
        {
            self.registry.cycles[index].advance();
            index = index + 1;
        }
        proof {
            assert forall|i: int| 0 <= i < self@.animations.len() implies self@.animations[i]
                == before.tick(now).animations[i] by {
                reveal_with_fuel(AnimationView::advance_by, 2);
            }
            assert(self@.animations =~= before.tick(now).animations);
        }
        self.last_advance = now;
        true
    }
}

/// Painting puts the current sprite of every animation on its tile and
/// leaves every tile without an animation as it was.
pub proof fn lemma_painted(clock: ClockView, sprites: Seq<usize>)
    requires
        clock.distinct_tiles(),
        clock.fits(sprites.len()),
    ensures
        clock.painted(sprites).len() == sprites.len(),
        forall|i: int|
            0 <= i < clock.animations.len() ==> clock.painted(sprites)[(
            #[trigger] clock.animations[i]).tile as int] == clock.animations[i].current(),
        forall|tile: int|
            0 <= tile < sprites.len() && !clock.animates(tile) ==> #[trigger] clock.painted(
                sprites,
            )[tile] == sprites[tile],
{
    assert forall|i: int| 0 <= i < clock.animations.len() implies clock.painted(sprites)[(
    #[trigger] clock.animations[i]).tile as int] == clock.animations[i].current() by {
        let tile = clock.animations[i].tile as int;
        assert(clock.animates(tile));
        let chosen = choose|k: int|
            0 <= k < clock.animations.len() && (#[trigger] clock.animations[k]).tile == tile;
        assert(chosen == i) by {
            if chosen < i {
                assert(clock.animations[chosen].tile != clock.animations[i].tile);
            } else if i < chosen {
                assert(clock.animations[i].tile != clock.animations[chosen].tile);
            }
        }
    }
}

/// A check of the clock moves positions only: the animations stay the
/// animations of the same tiles with the same cycles, in the same order.
pub proof fn lemma_tick_keeps_tiles(clock: ClockView, now: u64)
    ensures
        clock.tick(now).interval == clock.interval,
        clock.tick(now).animations.len() == clock.animations.len(),
        forall|i: int|
            0 <= i < clock.animations.len() ==> (#[trigger] clock.tick(now).animations[i]).tile
                == clock.animations[i].tile && clock.tick(now).animations[i].cycle
                == clock.animations[i].cycle,
{
    assert forall|i: int| 0 <= i < clock.animations.len() implies (#[trigger] clock.tick(
        now,
    ).animations[i]).tile == clock.animations[i].tile && clock.tick(now).animations[i].cycle
        == clock.animations[i].cycle by {
        reveal_with_fuel(AnimationView::advance_by, 2);
    }
}

/// Two advances never fall into one interval: a check that advances right
/// after another one that did comes more than the interval later.
pub proof fn lemma_advances_are_spaced(clock: ClockView, first: u64, second: u64)
    requires
        clock.due(first),
        clock.tick(first).due(second),
    ensures
        second - first > clock.interval,
{
}

/// A check made strictly more than the interval after the last advance never
/// skips: every animation is exactly one step on, and the clock starts over.
/// A check made earlier changes nothing.
pub proof fn lemma_check_advances_when_due(clock: ClockView, now: u64)
    ensures
        now > clock.last_advance && now - clock.last_advance > clock.interval ==> {
            &&& clock.tick(now).last_advance == now
            &&& clock.tick(now).animations.len() == clock.animations.len()
            &&& forall|i: int|
                0 <= i < clock.animations.len() ==> (#[trigger] clock.tick(now).animations[i])
                    == clock.animations[i].advance()
        },
        !(now > clock.last_advance && now - clock.last_advance > clock.interval) ==> clock.tick(now)
            == clock,
{
    assert forall|i: int| 0 <= i < clock.animations.len() implies clock.animations[i].advance_by(1)
        == clock.animations[i].advance() by {
        reveal_with_fuel(AnimationView::advance_by, 2);
    }
}

/// Over any run of checks the animations advance in step with the timing of
/// the clock: the timing goes the way of a throttle fed with the same times,
/// and each animation stands as many steps on as that throttle accepts events.
pub proof fn lemma_checks_advance_with_gate(clock: ClockView, times: Seq<u64>)
    ensures
        clock.tick_all(times).gate() == clock.gate().after_all(times),
        clock.tick_all(times).animations == clock.stepped(clock.gate().accepted_count(times)),
    decreases times.len(),
{
    if times.len() == 0 {
        assert(clock.stepped(0) =~= clock.animations);
    } else {
        let next = clock.tick(times[0]);
        let rest = times.drop_first();
        lemma_checks_advance_with_gate(next, rest);
        let later = next.gate().accepted_count(rest);
        if clock.due(times[0]) {
            assert forall|i: int| 0 <= i < clock.animations.len() implies next.animations[i].advance_by(
                later,
            ) == clock.animations[i].advance_by(1 + later) by {
                lemma_advance_by_sum(clock.animations[i], 1, later);
            }
            assert(next.stepped(later) =~= clock.stepped(1 + later));
        }
    }
}

/// However often the clock is checked inside a window no longer than the
/// interval that starts at `start`, the animations advance at most once.
pub proof fn lemma_burst_advances_at_most_once(clock: ClockView, start: u64, times: Seq<u64>)
    requires
        forall|i: int|
            0 <= i < times.len() ==> start <= #[trigger] times[i] && times[i] - start
                <= clock.interval,
    ensures
        clock.tick_all(times).animations == clock.stepped(0) || clock.tick_all(times).animations
            == clock.stepped(1),
{
    lemma_checks_advance_with_gate(clock, times);
    lemma_burst_accepts_at_most_one(clock.gate(), start, times);
}

/// Checks that each come more than the interval after the one before, the
/// first of them more than the interval after the last advance, advance the
/// animations once each.
pub proof fn lemma_spaced_checks_advance_each(clock: ClockView, times: Seq<u64>)
    requires
        times.len() > 0 ==> clock.due(times[0]),
        forall|i: int, j: int|
            0 <= i && j == i + 1 && j < times.len() ==> interval_passed(
                #[trigger] times[i],
                clock.interval,
                #[trigger] times[j],
            ),
    ensures
        clock.tick_all(times).animations == clock.stepped(times.len()),
{
    lemma_checks_advance_with_gate(clock, times);
    lemma_spaced_events_all_accepted(clock.gate(), times);
}

/// Steps add up.
pub proof fn lemma_advance_by_sum(animation: AnimationView, first: nat, second: nat)
    ensures
        animation.advance_by(first).advance_by(second) == animation.advance_by(first + second),
    decreases second,
{
    if second > 0 {
        lemma_advance_by_sum(animation, first, (second - 1) as nat);
        assert((first + second - 1) as nat == first + (second - 1) as nat);
    }
}

/// Adding one before or after reducing modulo `modulus` gives the same.
proof fn lemma_add_one_mod(value: int, modulus: int)
    requires
        0 <= value,
        0 < modulus,
    ensures
        (value % modulus + 1) % modulus == (value + 1) % modulus,
{
    lemma_add_mod_noop(value, 1, modulus);
    if modulus == 1 {
        lemma_mod_bound(value % modulus + 1, modulus);
        lemma_mod_bound(value + 1, modulus);
    } else {
        lemma_small_mod(1, modulus as nat);
    }
}

} // verus!
