//! The integer side of the voxel walk: which axis steps, where the walk is,
//! and whether the block it entered stops the ray.

use crate::world::{Block, World};
use vstd::prelude::*;

verus! {

/// The axis whose pair of faces a ray crossed when entering a voxel.
#[derive(Clone, Copy, Debug, PartialEq, Eq, Structural)]
pub enum Plane {
    X,
    Y,
    Z,
}

/// A ray's collision: the block hit, the face axis crossed, and the texel
/// of the face's 8×8 texture, `floor(offset * 8)` for each coordinate of
/// the face offset (zero where that is negative).
#[derive(Clone, Copy, Debug, PartialEq, Eq, Structural)]
pub struct Hit {
    pub block: Block,
    pub side: Plane,
    pub texel_x: usize,
    pub texel_y: usize,
}

/// What the walk found in the voxel it just entered.
#[derive(Clone, Copy, Debug, PartialEq, Eq, Structural)]
pub enum Step {
    /// A block other than Air: the ray stops here.
    Hit(Block),
    /// The walk has left the world in the direction of its step.
    Miss,
    /// Nothing yet: step again.
    Continue,
}

/// The axis to step along, given the order of the three distances to the
/// next crossing: X before Y only when strictly nearer, and either before Z
/// only when strictly nearer.
pub open spec fn spec_choose_axis(x_lt_y: bool, x_lt_z: bool, y_lt_z: bool) -> Plane {
    if x_lt_y {
        if x_lt_z {
            Plane::X
        } else {
            Plane::Z
        }
    } else if y_lt_z {
        Plane::Y
    } else {
        Plane::Z
    }
}

/// Picks the axis to step along from the comparisons `x < y`, `x < z` and
/// `y < z` of the distances to the next grid crossing.
pub fn choose_axis(x_lt_y: bool, x_lt_z: bool, y_lt_z: bool) -> (r: Plane)
    ensures
        r == spec_choose_axis(x_lt_y, x_lt_z, y_lt_z),
{
    if x_lt_y {
        if x_lt_z {
            Plane::X
        } else {
            Plane::Z
        }
    } else if y_lt_z {
        Plane::Y
    } else {
        Plane::Z
    }
}

/// `value` has passed the range [`min`, `max`] in the direction of `step`.
pub open spec fn spec_outside(value: int, min: int, max: int, step: int) -> bool {
    if step < 0 {
        value < min
    } else {
        value > max
    }
}

/// Whether `value` has passed [`min`, `max`] in the direction of `step`.
pub fn outside(value: i64, min: i64, max: i64, step: i64) -> (r: bool)
    ensures
        r == spec_outside(value as int, min as int, max as int, step as int),
{
    if step < 0 {
        value < min
    } else {
        value > max
    }
}

/// The voxel a ray is in and the direction it steps along each axis.
#[derive(Clone, Copy, Debug, PartialEq, Eq, Structural)]
pub struct Walk {
    pub map_x: i64,
    pub map_y: i64,
    pub map_z: i64,
    pub step_x: i64,
    pub step_y: i64,
    pub step_z: i64,
}

/// The sign of a direction component: -1, 0 or 1.
pub open spec fn is_step(s: i64) -> bool {
    -1 <= s <= 1
}

/// The world's sizes fit the walk's coordinates.
pub open spec fn world_fits(world: &World) -> bool {
    world.wf() && world.width < i64::MAX && world.height < i64::MAX && world.depth < i64::MAX
}

/// What the walk finds at its current voxel.
pub open spec fn spec_classify(world: &World, w: Walk) -> Step {
    if world.in_bounds(w.map_x as int, w.map_y as int, w.map_z as int) && world.block(
        w.map_x as int,
        w.map_y as int,
        w.map_z as int,
    ) != Block::Air {
        Step::Hit(world.block(w.map_x as int, w.map_y as int, w.map_z as int))
    } else if world.in_bounds(w.map_x as int, w.map_y as int, w.map_z as int) {
        Step::Continue
    } else if spec_outside(w.map_x as int, 0, world.width as int, w.step_x as int)
        || spec_outside(w.map_y as int, 0, world.height as int, w.step_y as int)
        || spec_outside(w.map_z as int, 0, world.depth as int, w.step_z as int) {
        Step::Miss
    } else {
        Step::Continue
    }
}

impl Walk {
    /// The walk's steps are signs.
    pub open spec fn wf(&self) -> bool {
        is_step(self.step_x) && is_step(self.step_y) && is_step(self.step_z)
    }

    /// Stepping along `side` keeps the coordinate within `i64`.
    pub open spec fn spec_can_advance(&self, side: Plane) -> bool {
        match side {
            Plane::X => i64::MIN <= self.map_x + self.step_x <= i64::MAX,
            Plane::Y => i64::MIN <= self.map_y + self.step_y <= i64::MAX,
            Plane::Z => i64::MIN <= self.map_z + self.step_z <= i64::MAX,
        }
    }

    /// A walk from voxel (`map_x`, `map_y`, `map_z`) with the given signs.
    pub fn new(map_x: i64, map_y: i64, map_z: i64, step_x: i64, step_y: i64, step_z: i64) -> (r:
        Walk)
        requires
            is_step(step_x),
            is_step(step_y),
            is_step(step_z),
        ensures
            r.wf(),
            r == (Walk { map_x, map_y, map_z, step_x, step_y, step_z }),
    {
        Walk { map_x, map_y, map_z, step_x, step_y, step_z }
    }

    /// Whether a step along `side` stays within `i64`.
    pub fn can_advance(&self, side: Plane) -> (r: bool)
        requires
            self.wf(),
        ensures
            r == self.spec_can_advance(side),
    {
        match side {
            Plane::X => !((self.step_x > 0 && self.map_x == i64::MAX) || (self.step_x < 0
                && self.map_x == i64::MIN)),
            Plane::Y => !((self.step_y > 0 && self.map_y == i64::MAX) || (self.step_y < 0
                && self.map_y == i64::MIN)),
            Plane::Z => !((self.step_z > 0 && self.map_z == i64::MAX) || (self.step_z < 0
                && self.map_z == i64::MIN)),
        }
    }

    /// Moves one voxel along `side`: that coordinate changes by its step and
    /// the others stay.
    pub fn advance(&mut self, side: Plane)
        requires
            old(self).wf(),
            old(self).spec_can_advance(side),
        ensures
            final(self).wf(),
            final(self).step_x == old(self).step_x,
            final(self).step_y == old(self).step_y,
            final(self).step_z == old(self).step_z,
            final(self).map_x == old(self).map_x + if side == Plane::X {
                old(self).step_x as int
            } else {
                0
            },
            final(self).map_y == old(self).map_y + if side == Plane::Y {
                old(self).step_y as int
            } else {
                0
            },
            final(self).map_z == old(self).map_z + if side == Plane::Z {
                old(self).step_z as int
            } else {
                0
            },
    {
        match side {
            Plane::X => {
                self.map_x = self.map_x + self.step_x;
            },
            Plane::Y => {
                self.map_y = self.map_y + self.step_y;
            },
            Plane::Z => {
                self.map_z = self.map_z + self.step_z;
            },
        }
    }

    /// The coordinate of the face the walk entered its voxel through, along
    /// `side`: the far face when stepping down, the near one otherwise.
    pub fn face_plane(&self, side: Plane) -> (r: i64)
        requires
            self.map_x < i64::MAX,
            self.map_y < i64::MAX,
            self.map_z < i64::MAX,
        ensures
            r == match side {
                Plane::X => if self.step_x < 0 {
                    self.map_x + 1
                } else {
                    self.map_x as int
                },
                Plane::Y => if self.step_y < 0 {
                    self.map_y + 1
                } else {
                    self.map_y as int
                },
                Plane::Z => if self.step_z < 0 {
                    self.map_z + 1
                } else {
                    self.map_z as int
                },
            },
    {
        match side {
            Plane::X => if self.step_x < 0 {
                self.map_x + 1
            } else {
                self.map_x
            },
            Plane::Y => if self.step_y < 0 {
                self.map_y + 1
            } else {
                self.map_y
            },
            Plane::Z => if self.step_z < 0 {
                self.map_z + 1
            } else {
                self.map_z
            },
        }
    }

    /// What the walk finds at its current voxel: the block if it is inside
    /// the world and not Air, a miss if it has passed the world's bounds on
    /// some axis in the direction of that axis's step, else nothing yet.
    pub fn classify(&self, world: &World) -> (r: Step)
        requires
            world_fits(world),
        ensures
            r == spec_classify(world, *self),
    {
        let width = world.width as i64;
        let height = world.height as i64;
        let depth = world.depth as i64;
        if 0 <= self.map_x && self.map_x < width && 0 <= self.map_y && self.map_y < height && 0
            <= self.map_z && self.map_z < depth {
            let block = world.get(self.map_x as usize, self.map_y as usize, self.map_z as usize);
            if block != Block::Air {
                Step::Hit(block)
            } else {
                Step::Continue
            }
        } else if outside(self.map_x, 0, width, self.step_x) || outside(
            self.map_y,
            0,
            height,
            self.step_y,
        ) || outside(self.map_z, 0, depth, self.step_z) {
            Step::Miss
        } else {
            Step::Continue
        }
    }
}

/// A walk that has passed the world's bounds on some axis, in the direction
/// that axis steps, misses: the ray points away from everything left.
pub proof fn lemma_leaving_world_misses(world: &World, w: Walk)
    requires
        spec_outside(w.map_x as int, 0, world.width as int, w.step_x as int)
            || spec_outside(w.map_y as int, 0, world.height as int, w.step_y as int)
            || spec_outside(w.map_z as int, 0, world.depth as int, w.step_z as int),
    ensures
        spec_classify(world, w) == Step::Miss,
{
}

/// Stepping further in the direction of the step keeps a walk that has
/// left the world outside it.
pub proof fn lemma_missed_stays_missed(world: &World, w: Walk, side: Plane)
    requires
        w.wf(),
        w.spec_can_advance(side),
        spec_classify(world, w) == Step::Miss,
    ensures
        spec_classify(
            world,
            match side {
                Plane::X => Walk { map_x: (w.map_x + w.step_x) as i64, ..w },
                Plane::Y => Walk { map_y: (w.map_y + w.step_y) as i64, ..w },
                Plane::Z => Walk { map_z: (w.map_z + w.step_z) as i64, ..w },
            },
        ) == Step::Miss,
{
}

/// In a world of Air alone no walk ever hits.
pub proof fn lemma_empty_world_never_hits(world: &World, w: Walk)
    requires
        world.wf(),
        forall|i: int| 0 <= i < world@.len() ==> #[trigger] world@[i] == Block::Air,
    ensures
        !(spec_classify(world, w) is Hit),
{
    if world.in_bounds(w.map_x as int, w.map_y as int, w.map_z as int) {
        crate::world::lemma_index_in_world(
            world.width as int,
            world.height as int,
            world.depth as int,
            w.map_x as int,
            w.map_y as int,
            w.map_z as int,
        );
    }
}

} // verus!
