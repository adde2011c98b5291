//! The camera: the offset between the world and the screen.

use vstd::prelude::*;

verus! {

/// The four ways the view can pan.
#[derive(Copy, Clone, Debug, PartialEq, Eq, Structural)]
pub enum Direction {
    Up,
    Down,
    Left,
    Right,
}

/// The offset that is added to every projected position. It is not tied to
/// the extent of the grid: the view pans freely in both directions.
#[derive(Copy, Clone, Debug, PartialEq, Eq, Structural)]
pub struct Camera {
    pub origin_x: i64,
    pub origin_y: i64,
}

/// Whether `value` can be held by a camera coordinate.
pub open spec fn representable(value: int) -> bool {
    i64::MIN <= value <= i64::MAX
}

impl Camera {
    /// Where one step of `step` units in `direction` leads, as a pair of the
    /// horizontal and the vertical offset. Up and left add to the offset, down
    /// and right take away from it.
    pub open spec fn pan_target(self, direction: Direction, step: int) -> (int, int) {
        match direction {
            Direction::Up => (self.origin_x as int, self.origin_y + step),
            Direction::Down => (self.origin_x as int, self.origin_y - step),
            Direction::Left => (self.origin_x + step, self.origin_y as int),
            Direction::Right => (self.origin_x - step, self.origin_y as int),
        }
    }

    /// Whether one step in `direction` stays within what a camera can hold.
    pub open spec fn can_pan(self, direction: Direction, step: int) -> bool {
        representable(self.pan_target(direction, step).0) && representable(
            self.pan_target(direction, step).1,
        )
    }

    /// The camera after one step in `direction`: moved where the target can
    /// be held, left where it is otherwise.
    pub open spec fn panned(self, direction: Direction, step: int) -> Camera {
        if self.can_pan(direction, step) {
            Camera {
                origin_x: self.pan_target(direction, step).0 as i64,
                origin_y: self.pan_target(direction, step).1 as i64,
            }
        } else {
            self
        }
    }

    /// The camera after `count` steps in `direction`, one after the other.
    pub open spec fn panned_by(self, direction: Direction, step: int, count: nat) -> Camera
        decreases count,
    {
        if count == 0 {
            self
        } else {
            self.panned(direction, step).panned_by(direction, step, (count - 1) as nat)
        }
    }

    /// A camera at the given offsets.
    pub fn new(origin_x: i64, origin_y: i64) -> (camera: Camera)
        ensures
            camera.origin_x == origin_x,
            camera.origin_y == origin_y,
    {
        Camera { origin_x, origin_y }
    }

    /// Pans one step of `step` units in `direction` and says whether the
    /// camera moved. It stays where it is only when the target lies outside
    /// the range of a coordinate.
    pub fn pan(&mut self, direction: Direction, step: i64) -> (moved: bool)
        ensures
            moved == old(self).can_pan(direction, step as int),
            *final(self) == old(self).panned(direction, step as int),
        no_unwind
    {
        let x: i128 = self.origin_x as i128;
        let y: i128 = self.origin_y as i128;
        let d: i128 = step as i128;
        let (target_x, target_y): (i128, i128) = match direction {
            Direction::Up => (x, y + d),
            Direction::Down => (x, y - d),
            Direction::Left => (x + d, y),
            Direction::Right => (x - d, y),
        };
        if i64::MIN as i128 <= target_x && target_x <= i64::MAX as i128 && i64::MIN as i128
            <= target_y && target_y <= i64::MAX as i128 {
            self.origin_x = target_x as i64;
            self.origin_y = target_y as i64;
            true
        } else {
            false
        }
    }
}

/// Steps add up: where the place that `count` steps of `step` units lead
/// to can be held, the camera stands there after them, `count` times the step
/// away along the axis of `direction` and where it was along the other.
pub proof fn lemma_panned_by_adds_up(camera: Camera, direction: Direction, step: int, count: nat)
    requires
        representable(camera.pan_target(direction, count * step).0),
        representable(camera.pan_target(direction, count * step).1),
    ensures
        camera.panned_by(direction, step, count).origin_x == camera.pan_target(
            direction,
            count * step,
        ).0,
        camera.panned_by(direction, step, count).origin_y == camera.pan_target(
            direction,
            count * step,
        ).1,
    decreases count,
{
    if count > 0 {
        let rest = (count - 1) as nat;
        assert(count * step == step + rest * step) by (nonlinear_arith)
            requires
                rest == count - 1,
        ;
        assert((0 <= step <= count * step && 0 <= rest * step) || (count * step <= step <= 0
            && rest * step <= 0)) by (nonlinear_arith)
            requires
                count >= 1,
                rest == count - 1,
        ;
        let next = camera.panned(direction, step);
        assert(camera.can_pan(direction, step));
        assert(next.pan_target(direction, rest * step) == camera.pan_target(
            direction,
            count * step,
        ));
        lemma_panned_by_adds_up(next, direction, step, rest);
    } else {
        assert(count * step == 0) by (nonlinear_arith)
            requires
                count == 0,
        ;
    }
}

} // verus!
