//! The world at the start, and the spheres that arrive while it runs.

use vstd::prelude::*;
use crate::components::{
    AABB, Controllable, Entity, Force, Mass, Normal, PhysicsError, PhysicsSphere, Position,
    SphereSpawnTimer, StaticCollision, Velocity,
};
use crate::fixed::Fixed;
use crate::random::random_between;
use crate::timer::{elapsed_after, fires};
use crate::vector::Vec3;

verus! {

/// The raw bounds of the volume in which spheres arrive: x and z from -10
/// up to 10, y from 1 up to 5, the upper bounds left out.
pub const SPAWN_SIDE_LOW: i64 = -10_000_000;

pub const SPAWN_SIDE_HIGH: i64 = 10_000_000;

pub const SPAWN_HEIGHT_LOW: i64 = 1_000_000;

pub const SPAWN_HEIGHT_HIGH: i64 = 5_000_000;

/// The raw radius, mass and half-extent of a sphere that arrives: a quarter.
pub const SPAWN_SIZE: i64 = 250_000;

/// The vector with the given raw components.
pub open spec fn raw_vector(x: i64, y: i64, z: i64) -> Vec3 {
    Vec3 { x: Fixed { raw: x }, y: Fixed { raw: y }, z: Fixed { raw: z } }
}

/// Whether `p` lies in the volume in which spheres arrive.
pub open spec fn in_spawn_volume(p: Vec3) -> bool {
    &&& SPAWN_SIDE_LOW <= p.x@ < SPAWN_SIDE_HIGH
    &&& SPAWN_HEIGHT_LOW <= p.y@ < SPAWN_HEIGHT_HIGH
    &&& SPAWN_SIDE_LOW <= p.z@ < SPAWN_SIDE_HIGH
}

/// The sphere that arrives at `position`: at rest, with no force on it, a
/// quarter in radius, mass and half-extent.
pub open spec fn spec_sphere_at(position: Vec3) -> Result<PhysicsSphere, PhysicsError> {
    PhysicsSphere::spec_new(
        position,
        Fixed { raw: SPAWN_SIZE },
        Fixed { raw: SPAWN_SIZE },
        raw_vector(SPAWN_SIZE, SPAWN_SIZE, SPAWN_SIZE),
    )
}

/// The ground: a slab two thick whose top is at height zero, facing up.
pub open spec fn ground() -> StaticCollision {
    StaticCollision {
        normal: Normal(raw_vector(0, 1_000_000, 0)),
        aabb: AABB {
            min: raw_vector(-25_000_000i64, -2_000_000i64, -25_000_000i64),
            max: raw_vector(25_000_000, 0, 25_000_000),
            half_extents: raw_vector(25_000_000, 1_000_000, 25_000_000),
        },
    }
}

/// The wall: a thin slab at z = -12.5, facing along the positive z axis.
pub open spec fn wall() -> StaticCollision {
    StaticCollision {
        normal: Normal(raw_vector(0, 0, 1_000_000)),
        aabb: AABB {
            min: raw_vector(-25_000_000i64, -12_500_000i64, -12_510_000i64),
            max: raw_vector(25_000_000, 37_500_000, -12_490_000i64),
            half_extents: raw_vector(25_000_000, 25_000_000, 10_000),
        },
    }
}

/// The ball that the player steers: at rest at height 3.5, of mass and
/// radius one, in a box of half-extent one half.
pub open spec fn ball() -> PhysicsSphere {
    PhysicsSphere {
        position: Position(raw_vector(0, 3_500_000, 0)),
        radius: Fixed { raw: 1_000_000 },
        mass: Mass(Fixed { raw: 1_000_000 }),
        velocity: Velocity(raw_vector(0, 0, 0)),
        force: Force(raw_vector(0, 0, 0)),
        aabb: AABB {
            min: raw_vector(-500_000i64, 3_000_000, -500_000i64),
            max: raw_vector(500_000, 4_000_000, 500_000),
            half_extents: raw_vector(500_000, 500_000, 500_000),
        },
    }
}

/// The world at the start: the ground, the wall and the ball.
pub open spec fn spec_setup() -> Seq<Entity> {
    seq![
        Entity::Surface { surface: ground() },
        Entity::Surface { surface: wall() },
        Entity::Sphere { body: ball(), control: Some(Controllable) },
    ]
}

/// Each part of the starting world is what its constructor makes of its
/// centre and half-extents, and is well formed.
pub proof fn lemma_setup_is_well_formed()
    ensures
        AABB::spec_new(raw_vector(0, -1_000_000i64, 0), raw_vector(25_000_000, 1_000_000, 25_000_000))
            == Ok::<AABB, PhysicsError>(ground().aabb),
        AABB::spec_new(
            raw_vector(0, 12_500_000, -12_500_000i64),
            raw_vector(25_000_000, 25_000_000, 10_000),
        ) == Ok::<AABB, PhysicsError>(wall().aabb),
        PhysicsSphere::spec_new(
            raw_vector(0, 3_500_000, 0),
            Fixed { raw: 1_000_000 },
            Fixed { raw: 1_000_000 },
            raw_vector(500_000, 500_000, 500_000),
        ) == Ok::<PhysicsSphere, PhysicsError>(ball()),
        ground().aabb.wf(),
        wall().aabb.wf(),
        ball().wf(),
        ball().in_step(),
{
}

/// The world at the start: the ground, the wall, and the ball that the
/// player steers, in this order.
pub fn setup() -> (r: Vec<Entity>)
    ensures
        r@ == spec_setup(),
{
    let ground: StaticCollision = StaticCollision {
        normal: Normal(Vec3::from_raw(0, 1_000_000, 0)),
        aabb: AABB {
            min: Vec3::from_raw(-25_000_000, -2_000_000, -25_000_000),
            max: Vec3::from_raw(25_000_000, 0, 25_000_000),
            half_extents: Vec3::from_raw(25_000_000, 1_000_000, 25_000_000),
        },
    };
    let wall: StaticCollision = StaticCollision {
        normal: Normal(Vec3::from_raw(0, 0, 1_000_000)),
        aabb: AABB {
            min: Vec3::from_raw(-25_000_000, -12_500_000, -12_510_000),
            max: Vec3::from_raw(25_000_000, 37_500_000, -12_490_000),
            half_extents: Vec3::from_raw(25_000_000, 25_000_000, 10_000),
        },
    };
    let ball: PhysicsSphere = PhysicsSphere {
        position: Position(Vec3::from_raw(0, 3_500_000, 0)),
        radius: Fixed { raw: 1_000_000 },
        mass: Mass(Fixed { raw: 1_000_000 }),
        velocity: Velocity(Vec3::from_raw(0, 0, 0)),
        force: Force(Vec3::from_raw(0, 0, 0)),
        aabb: AABB {
            min: Vec3::from_raw(-500_000, 3_000_000, -500_000),
            max: Vec3::from_raw(500_000, 4_000_000, 500_000),
            half_extents: Vec3::from_raw(500_000, 500_000, 500_000),
        },
    };
    let mut world: Vec<Entity> = Vec::new();
    world.push(Entity::Surface { surface: ground });
    world.push(Entity::Surface { surface: wall });
    world.push(Entity::Sphere { body: ball, control: Some(Controllable) });
    assert(world@ =~= spec_setup());
    world
}

/// The sphere that arrives at `position`. It exists for every position in
/// the spawn volume.
pub fn sphere_at(position: Vec3) -> (r: Result<PhysicsSphere, PhysicsError>)
    ensures
        r == spec_sphere_at(position),
        in_spawn_volume(position) ==> r is Ok,
{
    PhysicsSphere::new(
        position,
        Fixed { raw: SPAWN_SIZE },
        Fixed { raw: SPAWN_SIZE },
        Vec3::from_raw(SPAWN_SIZE, SPAWN_SIZE, SPAWN_SIZE),
    )
}

/// Lets `delta_nanos` nanoseconds pass on the timer and, when it fires,
/// returns a new sphere at a random place in the spawn volume.
///
/// Which place is not known beforehand; whatever it is, the sphere is the
/// one that [`sphere_at`] makes there.
pub fn spawn_sphere(delta_nanos: u64, timer: &mut SphereSpawnTimer) -> (r: Option<PhysicsSphere>)
    requires
        old(timer).wf(),
    ensures
        final(timer).wf(),
        final(timer).period() == old(timer).period(),
        final(timer).elapsed() == elapsed_after(
            old(timer).elapsed(),
            old(timer).period(),
            delta_nanos as nat,
        ),
        r is Some <==> fires(old(timer).elapsed(), old(timer).period(), delta_nanos as nat),
        r matches Some(s) ==> in_spawn_volume(s.position.0) && spec_sphere_at(s.position.0) == Ok::<
            PhysicsSphere,
            PhysicsError,
        >(s),
{
    if !timer.tick(delta_nanos) {
        return None;
    }
    let x: i64 = random_between(SPAWN_SIDE_LOW, SPAWN_SIDE_HIGH);
    let y: i64 = random_between(SPAWN_HEIGHT_LOW, SPAWN_HEIGHT_HIGH);
    let z: i64 = random_between(SPAWN_SIDE_LOW, SPAWN_SIDE_HIGH);
    match sphere_at(Vec3::from_raw(x, y, z)) {
        Ok(s) => Some(s),
        Err(_) => None,
    }
}

} // verus!
