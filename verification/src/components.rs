//! The data of the simulation: bounding boxes, spheres, static surfaces and
//! the entities that carry them.
//!
//! All quantities are fixed-point. Every function here is total: what cannot
//! be represented is reported as an error and never wraps or panics.

use vstd::prelude::*;
use bevy::time::Timer;
use crate::fixed::{Fixed, SCALE, narrow, trunc_div, narrow_wide, wide_product, wide_quotient};
use crate::timer::{
    elapsed_after, fires, repeating_timer, tick_timer, timer_elapsed, timer_period, timer_runs,
};
use crate::vector::{Vec3, gather};

verus! {

/// Why an operation of the simulation could not be carried out.
#[derive(Clone, Copy, Debug, PartialEq, Eq, Structural)]
pub enum PhysicsError {
    /// A mass was zero or negative.
    NonPositiveMass,
    /// A half-extent of a bounding box was negative.
    NegativeExtent,
    /// A direction to push along was the zero vector.
    ZeroDirection,
    /// A value left the range of the fixed-point numbers, or a division had
    /// no result.
    Overflow,
}

/// Where a sphere is.
#[derive(Clone, Copy, Debug, PartialEq, Eq, Structural)]
pub struct Position(pub Vec3);

/// How fast a sphere moves.
#[derive(Clone, Copy, Debug, PartialEq, Eq, Structural)]
pub struct Velocity(pub Vec3);

/// The outward direction of a static surface.
#[derive(Clone, Copy, Debug, PartialEq, Eq, Structural)]
pub struct Normal(pub Vec3);

/// The force gathered on a sphere during one tick.
#[derive(Clone, Copy, Debug, PartialEq, Eq, Structural)]
pub struct Force(pub Vec3);

/// The mass of a sphere. A well-formed mass is positive.
#[derive(Clone, Copy, Debug, PartialEq, Eq, Structural)]
pub struct Mass(pub Fixed);

/// Marks the sphere that the player steers.
#[derive(Clone, Copy, Debug, PartialEq, Eq, Structural)]
pub struct Controllable;

impl Mass {
    /// A mass is well formed when it is positive.
    pub open spec fn wf(self) -> bool {
        self.0@ > 0
    }

    /// The mass `value`, which must be positive.
    pub fn new(value: Fixed) -> (r: Result<Mass, PhysicsError>)
        ensures
            value@ > 0 ==> r == Ok::<Mass, PhysicsError>(Mass(value)) && r->Ok_0.wf(),
            value@ <= 0 ==> r == Err::<Mass, PhysicsError>(PhysicsError::NonPositiveMass),
    {
        if value.raw > 0 {
            Ok(Mass(value))
        } else {
            Err(PhysicsError::NonPositiveMass)
        }
    }

    /// The value of the mass.
    pub fn value(self) -> (r: Fixed)
        ensures
            r == self.0,
    {
        self.0
    }
}

/// An axis-aligned bounding box. `half_extents` is fixed when the box is
/// made; `min` and `max` follow the centre that the box was last moved to.
#[derive(Clone, Copy, Debug, PartialEq, Eq, Structural)]
pub struct AABB {
    pub min: Vec3,
    pub max: Vec3,
    pub half_extents: Vec3,
}

/// How far two intervals reach into each other: the smaller of the two
/// distances by which one end passes the other when the interiors meet, and
/// zero when they do not.
pub open spec fn axis_overlap(a_min: int, a_max: int, b_min: int, b_max: int) -> int {
    if b_min < a_max && b_max > a_min {
        if a_max - b_min < b_max - a_min {
            a_max - b_min
        } else {
            b_max - a_min
        }
    } else {
        0
    }
}

/// The distance to travel along a direction whose component on some axis is
/// `n` (not zero) to cover `o` on that axis.
pub open spec fn projection(o: int, n: int) -> int {
    trunc_div(o * SCALE, if n >= 0 { n } else { -n })
}

/// The least projection so far, after looking at one more axis with overlap
/// `o` and direction component `n`. An axis counts only when both are not
/// zero.
pub open spec fn lesser(least: Option<int>, o: int, n: int) -> Option<int> {
    if o != 0 && n != 0 {
        let p = projection(o, n);
        if least is Some && least->0 <= p {
            least
        } else {
            Some(p)
        }
    } else {
        least
    }
}

/// The distance to push along the unit direction `n` to undo the overlaps
/// `o`: the least projection among the axes that count, zero when none does.
pub open spec fn push_distance(o: (int, int, int), n: (int, int, int)) -> int {
    let least = lesser(lesser(lesser(None, o.0, n.0), o.1, n.1), o.2, n.2);
    if least is Some {
        least->0
    } else {
        0
    }
}

impl AABB {
    /// A box is well formed when no half-extent is negative and `min` and
    /// `max` lie one half-extent to either side of a common centre. Then
    /// `max` is nowhere below `min`.
    pub open spec fn wf(self) -> bool {
        &&& self.half_extents.x@ >= 0
        &&& self.half_extents.y@ >= 0
        &&& self.half_extents.z@ >= 0
        &&& self.max.x@ - self.min.x@ == 2 * self.half_extents.x@
        &&& self.max.y@ - self.min.y@ == 2 * self.half_extents.y@
        &&& self.max.z@ - self.min.z@ == 2 * self.half_extents.z@
    }

    /// Whether the box is the one with these half-extents around `center`.
    pub open spec fn centered_at(self, center: Vec3) -> bool {
        &&& self.min@ == (
            center.x@ - self.half_extents.x@,
            center.y@ - self.half_extents.y@,
            center.z@ - self.half_extents.z@,
        )
        &&& self.max@ == (
            center.x@ + self.half_extents.x@,
            center.y@ + self.half_extents.y@,
            center.z@ + self.half_extents.z@,
        )
    }

    /// The box with the given half-extents around `center`, when its corners
    /// can be represented.
    pub open spec fn spec_around(center: Vec3, half_extents: Vec3) -> Option<AABB> {
        match (center.spec_sub(half_extents), center.spec_add(half_extents)) {
            (Some(min), Some(max)) => Some(AABB { min, max, half_extents }),
            _ => None,
        }
    }

    /// What [`AABB::new`] returns.
    pub open spec fn spec_new(center: Vec3, half_extents: Vec3) -> Result<AABB, PhysicsError> {
        if half_extents.x@ < 0 || half_extents.y@ < 0 || half_extents.z@ < 0 {
            Err(PhysicsError::NegativeExtent)
        } else {
            match AABB::spec_around(center, half_extents) {
                Some(b) => Ok(b),
                None => Err(PhysicsError::Overflow),
            }
        }
    }

    /// Whether the two boxes touch or overlap on every axis.
    pub open spec fn spec_intersects(self, other: AABB) -> bool {
        &&& self.min.x@ <= other.max.x@
        &&& self.max.x@ >= other.min.x@
        &&& self.min.y@ <= other.max.y@
        &&& self.max.y@ >= other.min.y@
        &&& self.min.z@ <= other.max.z@
        &&& self.max.z@ >= other.min.z@
    }

    /// The overlap with `other` on each axis, when it can be represented.
    pub open spec fn spec_overlap(self, other: AABB) -> Option<Vec3> {
        gather(
            narrow(axis_overlap(self.min.x@, self.max.x@, other.min.x@, other.max.x@)),
            narrow(axis_overlap(self.min.y@, self.max.y@, other.min.y@, other.max.y@)),
            narrow(axis_overlap(self.min.z@, self.max.z@, other.min.z@, other.max.z@)),
        )
    }

    /// What [`AABB::overlap_push_in_direction`] returns.
    pub open spec fn spec_overlap_push_in_direction(self, other: AABB, direction: Vec3) -> Result<
        Vec3,
        PhysicsError,
    > {
        if direction@ == (0int, 0int, 0int) {
            Err(PhysicsError::ZeroDirection)
        } else {
            match (direction.spec_normalized(), self.spec_overlap(other)) {
                (Some(unit), Some(overlap)) => match narrow(push_distance(overlap@, unit@)) {
                    Some(distance) => match unit.spec_scaled(distance) {
                        Some(push) => Ok(push),
                        None => Err(PhysicsError::Overflow),
                    },
                    None => Err(PhysicsError::Overflow),
                },
                _ => Err(PhysicsError::Overflow),
            }
        }
    }

    /// The box that reaches `half_extents` to either side of `center`.
    ///
    /// Fails with `NegativeExtent` when a half-extent is negative, and with
    /// `Overflow` when a corner cannot be represented.
    pub fn new(center: Vec3, half_extents: Vec3) -> (r: Result<AABB, PhysicsError>)
        ensures
            r == AABB::spec_new(center, half_extents),
            r matches Ok(b) ==> b.wf() && b.centered_at(center) && b.half_extents == half_extents,
    {
        if half_extents.x.raw < 0 || half_extents.y.raw < 0 || half_extents.z.raw < 0 {
            return Err(PhysicsError::NegativeExtent);
        }
        match (center.checked_sub(half_extents), center.checked_add(half_extents)) {
            (Some(min), Some(max)) => Ok(AABB { min, max, half_extents }),
            _ => Err(PhysicsError::Overflow),
        }
    }

    /// Moves the box to `center`, keeping its half-extents.
    ///
    /// Fails with `Overflow`, and leaves the box as it was, when a corner
    /// cannot be represented.
    pub fn update(&mut self, center: Vec3) -> (r: Result<(), PhysicsError>)
        ensures
            match AABB::spec_around(center, old(self).half_extents) {
                Some(b) => r is Ok && *final(self) == b,
                None => r == Err::<(), PhysicsError>(PhysicsError::Overflow) && *final(self) == *old(
                    self,
                ),
            },
            r is Ok ==> final(self).centered_at(center),
            r is Ok && old(self).wf() ==> final(self).wf(),
    {
        match (center.checked_sub(self.half_extents), center.checked_add(self.half_extents)) {
            (Some(min), Some(max)) => {
                self.min = min;
                self.max = max;
                Ok(())
            },
            _ => Err(PhysicsError::Overflow),
        }
    }

    /// Whether the two boxes touch or overlap on every axis.
    pub fn intersects(&self, other: &AABB) -> (r: bool)
        ensures
            r == self.spec_intersects(*other),
    {
        self.min.x.raw <= other.max.x.raw && self.max.x.raw >= other.min.x.raw && self.min.y.raw
            <= other.max.y.raw && self.max.y.raw >= other.min.y.raw && self.min.z.raw
            <= other.max.z.raw && self.max.z.raw >= other.min.z.raw
    }

    /// The overlap with `other` on each axis: zero where the interiors do not
    /// meet. `None` when an overlap cannot be represented.
    pub fn overlap(&self, other: &AABB) -> (r: Option<Vec3>)
        ensures
            r == self.spec_overlap(*other),
    {
        let x: Option<Fixed> = overlap_on_axis(self.min.x, self.max.x, other.min.x, other.max.x);
        let y: Option<Fixed> = overlap_on_axis(self.min.y, self.max.y, other.min.y, other.max.y);
        let z: Option<Fixed> = overlap_on_axis(self.min.z, self.max.z, other.min.z, other.max.z);
        match (x, y, z) {
            (Some(x), Some(y), Some(z)) => Some(Vec3 { x, y, z }),
            _ => None,
        }
    }

    /// The shortest move along `direction` that undoes the overlap with
    /// `other` on one axis.
    ///
    /// The direction is brought to unit length. On each axis where the boxes
    /// overlap and the direction has a component, the overlap over the size
    /// of that component is the distance that would undo it; the least of
    /// these distances times the unit direction is the result. Where no axis
    /// counts the result is the zero vector.
    ///
    /// Fails with `ZeroDirection` for the zero vector, and with `Overflow`
    /// when a value on the way cannot be represented.
    pub fn overlap_push_in_direction(&self, other: &AABB, direction: Vec3) -> (r: Result<
        Vec3,
        PhysicsError,
    >)
        ensures
            r == self.spec_overlap_push_in_direction(*other, direction),
    {
        if direction.x.raw == 0 && direction.y.raw == 0 && direction.z.raw == 0 {
            return Err(PhysicsError::ZeroDirection);
        }
        let unit: Vec3 = match direction.normalized() {
            Some(unit) => unit,
            None => {
                return Err(PhysicsError::Overflow);
            },
        };
        let overlap: Vec3 = match self.overlap(other) {
            Some(overlap) => overlap,
            None => {
                return Err(PhysicsError::Overflow);
            },
        };
        let least: Option<i128> = None;
        let least: Option<i128> = lesser_projection(least, overlap.x, unit.x);
        let least: Option<i128> = lesser_projection(least, overlap.y, unit.y);
        let least: Option<i128> = lesser_projection(least, overlap.z, unit.z);
        let distance: Option<Fixed> = match least {
            Some(d) => narrow_wide(d),
            None => Some(Fixed { raw: 0 }),
        };
        match distance {
            Some(distance) => match unit.scaled(distance) {
                Some(push) => Ok(push),
                None => Err(PhysicsError::Overflow),
            },
            None => Err(PhysicsError::Overflow),
        }
    }
}

/// The overlap of two intervals, when it can be represented.
fn overlap_on_axis(a_min: Fixed, a_max: Fixed, b_min: Fixed, b_max: Fixed) -> (r: Option<Fixed>)
    ensures
        r == narrow(axis_overlap(a_min@, a_max@, b_min@, b_max@)),
{
    if b_min.raw < a_max.raw && b_max.raw > a_min.raw {
        let left: i128 = (a_max.raw as i128) - (b_min.raw as i128);
        let right: i128 = (b_max.raw as i128) - (a_min.raw as i128);
        if left < right {
            narrow_wide(left)
        } else {
            narrow_wide(right)
        }
    } else {
        Some(Fixed { raw: 0 })
    }
}

/// One step of the search for the least projection.
fn lesser_projection(least: Option<i128>, o: Fixed, n: Fixed) -> (r: Option<i128>)
    requires
        least matches Some(m) ==> -0x8000_0000_0000_0000 * 1_000_000 <= m <= 0x8000_0000_0000_0000
            * 1_000_000,
    ensures
        r matches Some(m) ==> -0x8000_0000_0000_0000 * 1_000_000 <= m <= 0x8000_0000_0000_0000
            * 1_000_000,
        r is Some <==> lesser(spec_wide(least), o@, n@) is Some,
        r matches Some(m) ==> lesser(spec_wide(least), o@, n@) == Some(m as int),
{
    if o.raw != 0 && n.raw != 0 {
        let size: i128 = if n.raw >= 0 {
            n.raw as i128
        } else {
            -(n.raw as i128)
        };
        let scaled: i128 = wide_product(o.raw, SCALE);
        assert(-0x8000_0000_0000_0000 * 1_000_000 <= scaled <= 0x8000_0000_0000_0000 * 1_000_000);
        let p: i128 = wide_quotient(scaled, size);
        proof {
            crate::fixed::lemma_trunc_div_bounds(scaled as int, size as int);
        }
        match least {
            Some(m) => if m <= p {
                least
            } else {
                Some(p)
            },
            None => Some(p),
        }
    } else {
        least
    }
}

/// A wide least projection as a mathematical integer.
spec fn spec_wide(least: Option<i128>) -> Option<int> {
    match least {
        Some(m) => Some(m as int),
        None => None,
    }
}

/// A sphere that moves: a point mass with a radius and a bounding box.
#[derive(Clone, Copy, Debug, PartialEq, Eq, Structural)]
pub struct PhysicsSphere {
    pub position: Position,
    pub radius: Fixed,
    pub mass: Mass,
    pub velocity: Velocity,
    pub force: Force,
    pub aabb: AABB,
}

impl PhysicsSphere {
    /// A sphere is well formed when its mass and its box are.
    pub open spec fn wf(self) -> bool {
        self.mass.wf() && self.aabb.wf()
    }

    /// Whether the box lies around the position.
    pub open spec fn in_step(self) -> bool {
        self.aabb.centered_at(self.position.0)
    }

    /// What [`PhysicsSphere::new`] returns.
    pub open spec fn spec_new(position: Vec3, radius: Fixed, mass: Fixed, half_extents: Vec3)
        -> Result<PhysicsSphere, PhysicsError> {
        if mass@ <= 0 {
            Err(PhysicsError::NonPositiveMass)
        } else {
            match AABB::spec_new(position, half_extents) {
                Ok(aabb) => Ok(
                    PhysicsSphere {
                        position: Position(position),
                        radius,
                        mass: Mass(mass),
                        velocity: Velocity(Vec3 { x: Fixed { raw: 0 }, y: Fixed { raw: 0 }, z: Fixed { raw: 0 } }),
                        force: Force(Vec3 { x: Fixed { raw: 0 }, y: Fixed { raw: 0 }, z: Fixed { raw: 0 } }),
                        aabb,
                    },
                ),
                Err(e) => Err(e),
            }
        }
    }

    /// A sphere at rest at `position`, with no force on it.
    ///
    /// Fails with `NonPositiveMass` when `mass` is not positive, else with
    /// the error of [`AABB::new`] for the box.
    pub fn new(position: Vec3, radius: Fixed, mass: Fixed, half_extents: Vec3) -> (r: Result<
        PhysicsSphere,
        PhysicsError,
    >)
        ensures
            r == PhysicsSphere::spec_new(position, radius, mass, half_extents),
            r matches Ok(s) ==> s.wf() && s.in_step(),
    {
        let mass: Mass = match Mass::new(mass) {
            Ok(m) => m,
            Err(e) => {
                return Err(e);
            },
        };
        let aabb: AABB = match AABB::new(position, half_extents) {
            Ok(b) => b,
            Err(e) => {
                return Err(e);
            },
        };
        Ok(
            PhysicsSphere {
                position: Position(position),
                radius,
                mass,
                velocity: Velocity(Vec3::zero()),
                force: Force(Vec3::zero()),
                aabb,
            },
        )
    }
}

/// A surface that never moves.
#[derive(Clone, Copy, Debug, PartialEq, Eq, Structural)]
pub struct StaticCollision {
    pub normal: Normal,
    pub aabb: AABB,
}

/// One thing in the world, by what it can do.
#[derive(Clone, Copy, Debug, PartialEq, Eq)]
pub enum Entity {
    /// A sphere that moves and collides; `control` marks the one the player
    /// steers.
    Sphere { body: PhysicsSphere, control: Option<Controllable> },
    /// A surface that only collides.
    Surface { surface: StaticCollision },
}

/// The timer that says when the next sphere arrives.
pub struct SphereSpawnTimer {
    timer: Timer,
}

impl SphereSpawnTimer {
    /// The timer runs, and its count and period fit in 64 bits of
    /// nanoseconds. Every timer that [`SphereSpawnTimer::new`] makes is well
    /// formed and stays so.
    pub closed spec fn wf(self) -> bool {
        &&& timer_runs(self.timer)
        &&& timer_elapsed(self.timer) <= u64::MAX
        &&& timer_period(self.timer) <= u64::MAX
    }

    /// The nanoseconds counted since the timer last fired.
    pub closed spec fn elapsed(self) -> nat {
        timer_elapsed(self.timer)
    }

    /// The nanoseconds between two firings.
    pub closed spec fn period(self) -> nat {
        timer_period(self.timer)
    }

    /// A timer that fires every `period_nanos` nanoseconds.
    pub fn new(period_nanos: u64) -> (r: SphereSpawnTimer)
        ensures
            r.wf(),
            r.elapsed() == 0,
            r.period() == period_nanos,
    {
        SphereSpawnTimer { timer: repeating_timer(period_nanos) }
    }

    /// Lets `delta_nanos` nanoseconds pass and says whether the timer fired.
    pub fn tick(&mut self, delta_nanos: u64) -> (fired: bool)
        requires
            old(self).wf(),
        ensures
            final(self).wf(),
            final(self).period() == old(self).period(),
            final(self).elapsed() == elapsed_after(
                old(self).elapsed(),
                old(self).period(),
                delta_nanos as nat,
            ),
            fired == fires(old(self).elapsed(), old(self).period(), delta_nanos as nat),
    {
        let fired: bool = tick_timer(&mut self.timer, delta_nanos);
        proof {
            lemma_elapsed_stays_small(old(self).elapsed(), old(self).period(), delta_nanos as nat);
        }
        fired
    }
}

/// A count that wraps round a period that fits in 64 bits fits in 64 bits.
pub proof fn lemma_elapsed_stays_small(elapsed: nat, period: nat, delta: nat)
    requires
        period <= u64::MAX,
    ensures
        elapsed_after(elapsed, period, delta) <= u64::MAX,
{
    let total = elapsed + delta;
    if total >= period && period != 0 {
        vstd::arithmetic::div_mod::lemma_mod_bound(total as int, period as int);
    }
}

} // verus!
