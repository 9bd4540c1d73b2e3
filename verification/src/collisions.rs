//! Finding the pairs that collide and answering each collision.
//!
//! Pairs are visited once each, in the order of their indices: (0, 1),
//! (0, 2), ... (1, 2), ... A sphere that takes part in several collisions is
//! changed several times, and a later pair sees what an earlier pair left.
//! Bounding boxes are not moved here: every test in one tick sees the boxes
//! as the last motion step left them.

use vstd::prelude::*;
use crate::components::{AABB, Entity, Force, PhysicsError, PhysicsSphere, Position, StaticCollision};
use crate::fixed::{Fixed, SCALE, narrow, narrow_wide, trunc_div, wide_product, wide_quotient};
use crate::systems::{KeyState, Stage, moved_all, spec_motion_all, spec_stage_all, stage_all};
use crate::vector::Vec3;

verus! {

/// Twice the offset between the centres of two intervals.
pub open spec fn doubled_offset(a_min: int, a_max: int, b_min: int, b_max: int) -> int {
    (a_min + a_max) - (b_min + b_max)
}

/// The size of `x`.
pub open spec fn magnitude(x: int) -> int {
    if x >= 0 {
        x
    } else {
        -x
    }
}

/// One whole with the sign of `d`; zero counts as positive.
pub open spec fn signed_unit(d: int) -> Fixed {
    if d >= 0 {
        Fixed { raw: SCALE }
    } else {
        Fixed { raw: (-SCALE) as i64 }
    }
}

/// The contact normal of two boxes: the unit vector along the axis on which
/// their centres lie farthest apart, pointing from the second box to the
/// first. On a tie x goes before y and y before z.
pub open spec fn collision_normal(a: AABB, b: AABB) -> Vec3 {
    let dx = doubled_offset(a.min.x@, a.max.x@, b.min.x@, b.max.x@);
    let dy = doubled_offset(a.min.y@, a.max.y@, b.min.y@, b.max.y@);
    let dz = doubled_offset(a.min.z@, a.max.z@, b.min.z@, b.max.z@);
    let zero = Fixed { raw: 0 };
    if magnitude(dx) >= magnitude(dy) && magnitude(dx) >= magnitude(dz) {
        Vec3 { x: signed_unit(dx), y: zero, z: zero }
    } else if magnitude(dy) >= magnitude(dz) {
        Vec3 { x: zero, y: signed_unit(dy), z: zero }
    } else {
        Vec3 { x: zero, y: zero, z: signed_unit(dz) }
    }
}

/// Twice the product of two masses over their sum: what one over the mean of
/// the inverse masses comes to. `None` unless both masses are positive.
pub open spec fn spec_shared_mass(m1: Fixed, m2: Fixed) -> Option<Fixed> {
    if m1@ <= 0 || m2@ <= 0 {
        None
    } else {
        narrow(trunc_div(2 * (m1@ * m2@), m1@ + m2@))
    }
}

/// The force that stands for the impulse between two spheres over one tick:
/// with `rel` the velocity of the second relative to the first along the
/// normal, the impulse is minus `rel` times the shared mass along the
/// normal, and the force is the impulse over `dt`.
pub open spec fn spec_impulse_force(
    dt: Fixed,
    v1: Vec3,
    v2: Vec3,
    m1: Fixed,
    m2: Fixed,
    normal: Vec3,
) -> Option<Vec3> {
    match v2.spec_sub(v1) {
        Some(dv) => match (dv.spec_dot(normal), spec_shared_mass(m1, m2)) {
            (Some(rel), Some(shared)) => match rel.spec_mul(shared) {
                Some(product) => match product.spec_neg() {
                    Some(j) => match normal.spec_scaled(j) {
                        Some(impulse) => impulse.spec_divided(dt),
                        None => None,
                    },
                    None => None,
                },
                None => None,
            },
            _ => None,
        },
        None => None,
    }
}

/// The force with which a surface throws a sphere back over one tick: minus
/// twice the mass times the velocity along the normal, along the normal,
/// over `dt`. The factor two makes the bounce fully elastic.
pub open spec fn spec_bounce_force(dt: Fixed, velocity: Vec3, mass: Fixed, normal: Vec3) -> Option<
    Vec3,
> {
    match (mass.spec_times(-2i64), velocity.spec_dot(normal)) {
        (Some(doubled), Some(along)) => match doubled.spec_mul(along) {
            Some(amount) => match normal.spec_scaled(amount) {
                Some(impulse) => impulse.spec_divided(dt),
                None => None,
            },
            None => None,
        },
        _ => None,
    }
}

/// How two spheres meet: the normal of the contact and the move that takes
/// the first sphere out of the second.
#[derive(Clone, Copy, Debug, PartialEq, Eq, Structural)]
pub struct Contact {
    pub normal: Vec3,
    pub push: Vec3,
}

/// Whether two spheres touch: their centres are apart, and no farther than
/// the sum of the radii. `distance` is the length of the vector between the
/// centres, `reach` the sum of the radii.
pub open spec fn spheres_touch(distance: Fixed, reach: Fixed) -> bool {
    distance@ > 0 && reach@ >= distance@
}

/// The contact of two spheres whose boxes intersect.
///
/// Where the spheres touch, the normal is the unit vector from the second
/// centre to the first and the push is the depth of the contact along it.
/// Where they do not, the normal is that of the boxes and the push is the
/// overlap of the boxes along it.
pub open spec fn spec_contact(s1: PhysicsSphere, s2: PhysicsSphere) -> Result<Contact, PhysicsError> {
    match (s1.position.0.spec_sub(s2.position.0), s1.radius.spec_add(s2.radius)) {
        (Some(apart), Some(reach)) => match apart.spec_length() {
            Some(distance) => if spheres_touch(distance, reach) {
                match (apart.spec_divided(distance), reach.spec_sub(distance)) {
                    (Some(normal), Some(depth)) => match normal.spec_scaled(depth) {
                        Some(push) => Ok(Contact { normal, push }),
                        None => Err(PhysicsError::Overflow),
                    },
                    _ => Err(PhysicsError::Overflow),
                }
            } else {
                let normal = collision_normal(s1.aabb, s2.aabb);
                match s1.aabb.spec_overlap_push_in_direction(s2.aabb, normal) {
                    Ok(push) => Ok(Contact { normal, push }),
                    Err(e) => Err(e),
                }
            },
            None => Err(PhysicsError::Overflow),
        },
        _ => Err(PhysicsError::Overflow),
    }
}

/// The two spheres after their collision. With `dt` zero nothing changes.
/// Otherwise the first loses and the second gains the force of the impulse,
/// and the first is pushed out of the second.
pub open spec fn spec_movable_response(dt: Fixed, s1: PhysicsSphere, s2: PhysicsSphere) -> Result<
    (PhysicsSphere, PhysicsSphere),
    PhysicsError,
> {
    if dt@ == 0 {
        Ok((s1, s2))
    } else if s1.mass.0@ <= 0 || s2.mass.0@ <= 0 {
        Err(PhysicsError::NonPositiveMass)
    } else {
        match spec_contact(s1, s2) {
            Ok(contact) => match spec_impulse_force(
                dt,
                s1.velocity.0,
                s2.velocity.0,
                s1.mass.0,
                s2.mass.0,
                contact.normal,
            ) {
                Some(force) => match (
                    s1.force.0.spec_sub(force),
                    s2.force.0.spec_add(force),
                    s1.position.0.spec_add(contact.push),
                ) {
                    (Some(taken), Some(given), Some(place)) => Ok(
                        (
                            PhysicsSphere { force: Force(taken), position: Position(place), ..s1 },
                            PhysicsSphere { force: Force(given), ..s2 },
                        ),
                    ),
                    _ => Err(PhysicsError::Overflow),
                },
                None => Err(PhysicsError::Overflow),
            },
            Err(e) => Err(e),
        }
    }
}

/// The sphere after its collision with a surface. With `dt` zero nothing
/// changes. Otherwise the sphere gains the force of the bounce and is pushed
/// along the normal of the surface out of its box.
pub open spec fn spec_static_response(dt: Fixed, s: PhysicsSphere, surface: StaticCollision)
    -> Result<PhysicsSphere, PhysicsError> {
    if dt@ == 0 {
        Ok(s)
    } else if s.mass.0@ <= 0 {
        Err(PhysicsError::NonPositiveMass)
    } else {
        match spec_bounce_force(dt, s.velocity.0, s.mass.0, surface.normal.0) {
            Some(force) => match s.aabb.spec_overlap_push_in_direction(
                surface.aabb,
                surface.normal.0,
            ) {
                Ok(push) => match (s.force.0.spec_add(force), s.position.0.spec_add(push)) {
                    (Some(f), Some(p)) => Ok(
                        PhysicsSphere { force: Force(f), position: Position(p), ..s },
                    ),
                    _ => Err(PhysicsError::Overflow),
                },
                Err(e) => Err(e),
            },
            None => Err(PhysicsError::Overflow),
        }
    }
}

/// The world after the pair `(i, j)` has been looked at: unchanged unless
/// one of the two is a sphere, the other a sphere or a surface, and their
/// boxes intersect.
#[verifier::opaque]
pub open spec fn spec_resolve_pair(dt: Fixed, world: Seq<Entity>, i: int, j: int) -> Result<
    Seq<Entity>,
    PhysicsError,
> {
    match (world[i], world[j]) {
        (Entity::Sphere { body: a, control: ca }, Entity::Sphere { body: b, control: cb }) => {
            if a.aabb.spec_intersects(b.aabb) {
                match spec_movable_response(dt, a, b) {
                    Ok((a2, b2)) => Ok(
                        world.update(i, Entity::Sphere { body: a2, control: ca }).update(
                            j,
                            Entity::Sphere { body: b2, control: cb },
                        ),
                    ),
                    Err(e) => Err(e),
                }
            } else {
                Ok(world)
            }
        },
        (Entity::Sphere { body: a, control: ca }, Entity::Surface { surface }) => {
            if a.aabb.spec_intersects(surface.aabb) {
                match spec_static_response(dt, a, surface) {
                    Ok(a2) => Ok(world.update(i, Entity::Sphere { body: a2, control: ca })),
                    Err(e) => Err(e),
                }
            } else {
                Ok(world)
            }
        },
        (Entity::Surface { surface }, Entity::Sphere { body: b, control: cb }) => {
            if b.aabb.spec_intersects(surface.aabb) {
                match spec_static_response(dt, b, surface) {
                    Ok(b2) => Ok(world.update(j, Entity::Sphere { body: b2, control: cb })),
                    Err(e) => Err(e),
                }
            } else {
                Ok(world)
            }
        },
        _ => Ok(world),
    }
}

/// The world after every pair from `(i, j)` on has been looked at, in the
/// order of the indices, among `n` entities.
pub open spec fn spec_resolve_from(dt: Fixed, world: Seq<Entity>, n: int, i: int, j: int) -> Result<
    Seq<Entity>,
    PhysicsError,
>
    decreases n - i, n - j,
{
    if i >= n {
        Ok(world)
    } else if j >= n {
        spec_resolve_from(dt, world, n, i + 1, i + 2)
    } else {
        match spec_resolve_pair(dt, world, i, j) {
            Ok(next) => spec_resolve_from(dt, next, n, i, j + 1),
            Err(e) => Err(e),
        }
    }
}

/// The world after all collisions of one tick. With `dt` zero nothing
/// changes.
pub open spec fn spec_collisions(dt: Fixed, world: Seq<Entity>) -> Result<Seq<Entity>, PhysicsError> {
    if dt@ == 0 {
        Ok(world)
    } else {
        spec_resolve_from(dt, world, world.len() as int, 0, 1)
    }
}

/// The world after one whole tick: forces reset, gravity, drag and input
/// added, collisions resolved, spheres moved.
pub open spec fn spec_tick(dt: Fixed, keys: KeyState, world: Seq<Entity>) -> Result<
    Seq<Entity>,
    PhysicsError,
> {
    match spec_stage_all(Stage::Reset, world) {
        Some(w1) => match spec_stage_all(Stage::Gravity, w1) {
            Some(w2) => match spec_stage_all(Stage::Friction, w2) {
                Some(w3) => match spec_stage_all(Stage::Input(keys), w3) {
                    Some(w4) => match spec_collisions(dt, w4) {
                        Ok(w5) => spec_motion_all(dt, w5),
                        Err(e) => Err(e),
                    },
                    None => Err(PhysicsError::Overflow),
                },
                None => Err(PhysicsError::Overflow),
            },
            None => Err(PhysicsError::Overflow),
        },
        None => Err(PhysicsError::Overflow),
    }
}

/// Twice the offset between the centres of two intervals.
fn offset_between(a_min: Fixed, a_max: Fixed, b_min: Fixed, b_max: Fixed) -> (d: i128)
    ensures
        d == doubled_offset(a_min@, a_max@, b_min@, b_max@),
{
    ((a_min.raw as i128) + (a_max.raw as i128)) - ((b_min.raw as i128) + (b_max.raw as i128))
}

/// The size of an offset.
fn size_of(d: i128) -> (m: i128)
    requires
        d > i128::MIN,
    ensures
        m == magnitude(d as int),
{
    if d >= 0 {
        d
    } else {
        -d
    }
}

/// One whole with the sign of `d`.
fn unit_toward(d: i128) -> (u: Fixed)
    ensures
        u == signed_unit(d as int),
{
    if d >= 0 {
        Fixed { raw: SCALE }
    } else {
        Fixed { raw: -SCALE }
    }
}

/// The contact normal of two boxes: the unit vector along the axis on which
/// their centres lie farthest apart, pointing from `b` to `a`. On a tie x
/// goes before y and y before z; centres that agree on the axis count as
/// apart in the positive direction.
pub fn calculate_collision_normal(a: &AABB, b: &AABB) -> (r: Vec3)
    ensures
        r == collision_normal(*a, *b),
{
    let dx: i128 = offset_between(a.min.x, a.max.x, b.min.x, b.max.x);
    let dy: i128 = offset_between(a.min.y, a.max.y, b.min.y, b.max.y);
    let dz: i128 = offset_between(a.min.z, a.max.z, b.min.z, b.max.z);
    let zero: Fixed = Fixed { raw: 0 };
    if size_of(dx) >= size_of(dy) && size_of(dx) >= size_of(dz) {
        Vec3 { x: unit_toward(dx), y: zero, z: zero }
    } else if size_of(dy) >= size_of(dz) {
        Vec3 { x: zero, y: unit_toward(dy), z: zero }
    } else {
        Vec3 { x: zero, y: zero, z: unit_toward(dz) }
    }
}

/// Twice the product of two masses over their sum.
fn shared_mass(m1: Fixed, m2: Fixed) -> (r: Option<Fixed>)
    ensures
        r == spec_shared_mass(m1, m2),
{
    if m1.raw <= 0 || m2.raw <= 0 {
        return None;
    }
    let product: i128 = wide_product(m1.raw, m2.raw);
    assert(0 <= product <= 0x7fff_ffff_ffff_ffff * 0x7fff_ffff_ffff_ffff) by (nonlinear_arith)
        requires
            product == m1.raw * m2.raw,
            0 < m1.raw <= 0x7fff_ffff_ffff_ffff,
            0 < m2.raw <= 0x7fff_ffff_ffff_ffff,
    ;
    let doubled: i128 = 2 * product;
    let sum: i128 = (m1.raw as i128) + (m2.raw as i128);
    let q: i128 = wide_quotient(doubled, sum);
    narrow_wide(q)
}

/// The force that stands for the impulse between two spheres over one tick.
fn impulse_force(dt: Fixed, v1: Vec3, v2: Vec3, m1: Fixed, m2: Fixed, normal: Vec3) -> (r: Option<
    Vec3,
>)
    ensures
        r == spec_impulse_force(dt, v1, v2, m1, m2, normal),
{
    let dv: Vec3 = v2.checked_sub(v1)?;
    let rel: Fixed = dv.dot(normal)?;
    let shared: Fixed = shared_mass(m1, m2)?;
    let product: Fixed = rel.checked_mul(shared)?;
    let j: Fixed = product.checked_neg()?;
    let impulse: Vec3 = normal.scaled(j)?;
    impulse.divided(dt)
}

/// The force with which a surface throws a sphere back over one tick.
fn bounce_force(dt: Fixed, velocity: Vec3, mass: Fixed, normal: Vec3) -> (r: Option<Vec3>)
    ensures
        r == spec_bounce_force(dt, velocity, mass, normal),
{
    let doubled: Fixed = mass.checked_times(-2)?;
    let along: Fixed = velocity.dot(normal)?;
    let amount: Fixed = doubled.checked_mul(along)?;
    let impulse: Vec3 = normal.scaled(amount)?;
    impulse.divided(dt)
}

/// The contact of two spheres whose boxes intersect: by the spheres where
/// they touch, by the boxes where they do not.
pub fn contact_of(s1: &PhysicsSphere, s2: &PhysicsSphere) -> (r: Result<Contact, PhysicsError>)
    ensures
        r == spec_contact(*s1, *s2),
{
    let apart: Vec3 = match s1.position.0.checked_sub(s2.position.0) {
        Some(v) => v,
        None => {
            return Err(PhysicsError::Overflow);
        },
    };
    let reach: Fixed = match s1.radius.checked_add(s2.radius) {
        Some(v) => v,
        None => {
            return Err(PhysicsError::Overflow);
        },
    };
    let distance: Fixed = match apart.length() {
        Some(v) => v,
        None => {
            return Err(PhysicsError::Overflow);
        },
    };
    if distance.raw > 0 && reach.raw >= distance.raw {
        match (apart.divided(distance), reach.checked_sub(distance)) {
            (Some(normal), Some(depth)) => match normal.scaled(depth) {
                Some(push) => Ok(Contact { normal, push }),
                None => Err(PhysicsError::Overflow),
            },
            _ => Err(PhysicsError::Overflow),
        }
    } else {
        let normal: Vec3 = calculate_collision_normal(&s1.aabb, &s2.aabb);
        match s1.aabb.overlap_push_in_direction(&s2.aabb, normal) {
            Ok(push) => Ok(Contact { normal, push }),
            Err(e) => Err(e),
        }
    }
}

/// The two spheres after their collision.
fn movable_response(dt: Fixed, s1: PhysicsSphere, s2: PhysicsSphere) -> (r: Result<
    (PhysicsSphere, PhysicsSphere),
    PhysicsError,
>)
    ensures
        r == spec_movable_response(dt, s1, s2),
{
    if dt.raw == 0 {
        return Ok((s1, s2));
    }
    if s1.mass.0.raw <= 0 || s2.mass.0.raw <= 0 {
        return Err(PhysicsError::NonPositiveMass);
    }
    let contact: Contact = match contact_of(&s1, &s2) {
        Ok(c) => c,
        Err(e) => {
            return Err(e);
        },
    };
    let force: Vec3 = match impulse_force(
        dt,
        s1.velocity.0,
        s2.velocity.0,
        s1.mass.0,
        s2.mass.0,
        contact.normal,
    ) {
        Some(f) => f,
        None => {
            return Err(PhysicsError::Overflow);
        },
    };
    match (
        s1.force.0.checked_sub(force),
        s2.force.0.checked_add(force),
        s1.position.0.checked_add(contact.push),
    ) {
        (Some(taken), Some(given), Some(place)) => {
            let mut a: PhysicsSphere = s1;
            a.force = Force(taken);
            a.position = Position(place);
            let mut b: PhysicsSphere = s2;
            b.force = Force(given);
            Ok((a, b))
        },
        _ => Err(PhysicsError::Overflow),
    }
}

/// The sphere after its collision with a surface.
fn static_response(dt: Fixed, s: PhysicsSphere, surface: StaticCollision) -> (r: Result<
    PhysicsSphere,
    PhysicsError,
>)
    ensures
        r == spec_static_response(dt, s, surface),
{
    if dt.raw == 0 {
        return Ok(s);
    }
    if s.mass.0.raw <= 0 {
        return Err(PhysicsError::NonPositiveMass);
    }
    let force: Vec3 = match bounce_force(dt, s.velocity.0, s.mass.0, surface.normal.0) {
        Some(f) => f,
        None => {
            return Err(PhysicsError::Overflow);
        },
    };
    let push: Vec3 = match s.aabb.overlap_push_in_direction(&surface.aabb, surface.normal.0) {
        Ok(p) => p,
        Err(e) => {
            return Err(e);
        },
    };
    match (s.force.0.checked_add(force), s.position.0.checked_add(push)) {
        (Some(f), Some(p)) => {
            let mut a: PhysicsSphere = s;
            a.force = Force(f);
            a.position = Position(p);
            Ok(a)
        },
        _ => Err(PhysicsError::Overflow),
    }
}

/// Answers the collision of two spheres whose boxes intersect.
///
/// With `dt` zero nothing changes. Otherwise the contact normal points from
/// the second sphere to the first; the impulse along it is minus the
/// relative velocity along the normal times twice the product of the masses
/// over their sum, and as a force over `dt` it is taken from the first
/// sphere and given to the second. The first sphere is then pushed out of
/// the second. See [`spec_contact`] for the normal and the push.
///
/// Fails with `NonPositiveMass` when a mass is not positive, else with
/// `Overflow` when a value cannot be represented; in both cases nothing
/// changes.
pub fn handle_movable_collision_response(dt: Fixed, s1: &mut PhysicsSphere, s2: &mut PhysicsSphere)
    -> (r: Result<(), PhysicsError>)
    ensures
        match spec_movable_response(dt, *old(s1), *old(s2)) {
            Ok((a, b)) => r is Ok && *final(s1) == a && *final(s2) == b,
            Err(e) => r == Err::<(), PhysicsError>(e) && *final(s1) == *old(s1) && *final(s2)
                == *old(s2),
        },
{
    match movable_response(dt, *s1, *s2) {
        Ok((a, b)) => {
            *s1 = a;
            *s2 = b;
            Ok(())
        },
        Err(e) => Err(e),
    }
}

/// Answers the collision of a sphere with a surface whose box it meets.
///
/// With `dt` zero nothing changes. Otherwise the sphere gains the force
/// minus twice its mass times its velocity along the normal of the surface,
/// along that normal, over `dt`, and is pushed along the normal out of the
/// box of the surface.
///
/// Fails with `NonPositiveMass` when the mass is not positive, with
/// `ZeroDirection` when the normal is the zero vector and with `Overflow`
/// when a value cannot be represented; the sphere is then left as it was.
pub fn handle_static_collision_response(
    dt: Fixed,
    sphere: &mut PhysicsSphere,
    surface: &StaticCollision,
) -> (r: Result<(), PhysicsError>)
    ensures
        match spec_static_response(dt, *old(sphere), *surface) {
            Ok(a) => r is Ok && *final(sphere) == a,
            Err(e) => r == Err::<(), PhysicsError>(e) && *final(sphere) == *old(sphere),
        },
{
    match static_response(dt, *sphere, *surface) {
        Ok(a) => {
            *sphere = a;
            Ok(())
        },
        Err(e) => Err(e),
    }
}

/// A copy of the world.
fn duplicate(entities: &Vec<Entity>) -> (r: Vec<Entity>)
    ensures
        r@ == entities@,
{
    let mut copy: Vec<Entity> = Vec::new();
    let mut i: usize = 0;
    while i < entities.len()
        invariant
            i <= entities.len(),
            copy@ == entities@.subrange(0, i as int),
        decreases entities.len() - i,
    {
        copy.push(entities[i]);
        assert(copy@ =~= entities@.subrange(0, i + 1));
        i = i + 1;
    }
    assert(copy@ =~= entities@);
    copy
}

/// Looks at the pair `(i, j)` and answers its collision, if there is one.
fn resolve_pair(dt: Fixed, world: &mut Vec<Entity>, i: usize, j: usize) -> (r: Result<
    (),
    PhysicsError,
>)
    requires
        i < j < old(world)@.len(),
    ensures
        match spec_resolve_pair(dt, old(world)@, i as int, j as int) {
            Ok(next) => r is Ok && final(world)@ == next,
            Err(e) => r == Err::<(), PhysicsError>(e),
        },
        final(world)@.len() == old(world)@.len(),
{
    reveal(spec_resolve_pair);
    let first: Entity = world[i];
    let second: Entity = world[j];
    match (first, second) {
        (Entity::Sphere { body: a, control: ca }, Entity::Sphere { body: b, control: cb }) => {
            if a.aabb.intersects(&b.aabb) {
                match movable_response(dt, a, b) {
                    Ok((a2, b2)) => {
                        world.set(i, Entity::Sphere { body: a2, control: ca });
                        world.set(j, Entity::Sphere { body: b2, control: cb });
                        Ok(())
                    },
                    Err(e) => Err(e),
                }
            } else {
                Ok(())
            }
        },
        (Entity::Sphere { body: a, control: ca }, Entity::Surface { surface }) => {
            if a.aabb.intersects(&surface.aabb) {
                match static_response(dt, a, surface) {
                    Ok(a2) => {
                        world.set(i, Entity::Sphere { body: a2, control: ca });
                        Ok(())
                    },
                    Err(e) => Err(e),
                }
            } else {
                Ok(())
            }
        },
        (Entity::Surface { surface }, Entity::Sphere { body: b, control: cb }) => {
            if b.aabb.intersects(&surface.aabb) {
                match static_response(dt, b, surface) {
                    Ok(b2) => {
                        world.set(j, Entity::Sphere { body: b2, control: cb });
                        Ok(())
                    },
                    Err(e) => Err(e),
                }
            } else {
                Ok(())
            }
        },
        _ => Ok(()),
    }
}

/// The world after all collisions of one tick.
fn resolved(dt: Fixed, entities: &Vec<Entity>) -> (r: Result<Vec<Entity>, PhysicsError>)
    ensures
        match spec_collisions(dt, entities@) {
            Ok(next) => r is Ok && r->Ok_0@ == next,
            Err(e) => r is Err && r->Err_0 == e,
        },
{
    let mut world: Vec<Entity> = duplicate(entities);
    if dt.raw == 0 {
        return Ok(world);
    }
    let n: usize = world.len();
    let mut i: usize = 0;
    let mut j: usize = 1;
    while i < n
        invariant
            dt@ != 0,
            world@.len() == n,
            entities@.len() == n,
            i < n ==> i < j <= n,
            spec_resolve_from(dt, world@, n as int, i as int, j as int) == spec_resolve_from(
                dt,
                entities@,
                n as int,
                0,
                1,
            ),
        decreases n - i, n - j,
    {
        let ghost before: Seq<Entity> = world@;
        if j >= n {
            assert(spec_resolve_from(dt, before, n as int, i as int, j as int)
                == spec_resolve_from(dt, before, n as int, i + 1, i + 2));
            i = i + 1;
            if i < n {
                j = i + 1;
            } else {
                assert(spec_resolve_from(dt, before, n as int, i as int, i + 1)
                    == Ok::<Seq<Entity>, PhysicsError>(before));
                assert(spec_resolve_from(dt, before, n as int, i as int, j as int)
                    == Ok::<Seq<Entity>, PhysicsError>(before));
            }
        } else {
            assert(spec_resolve_from(dt, before, n as int, i as int, j as int) == (
            match spec_resolve_pair(dt, before, i as int, j as int) {
                Ok(next) => spec_resolve_from(dt, next, n as int, i as int, j + 1),
                Err(e) => Err(e),
            }));
            match resolve_pair(dt, &mut world, i, j) {
                Ok(()) => {},
                Err(e) => {
                    return Err(e);
                },
            }
            j = j + 1;
        }
    }
    Ok(world)
}

/// Finds every pair whose boxes intersect and answers its collision.
///
/// The pairs are taken in the order of their indices, each once. Two
/// spheres are answered by [`handle_movable_collision_response`] with the
/// one of lower index first, a sphere and a surface by
/// [`handle_static_collision_response`]; two surfaces are left alone. With
/// `dt` zero nothing is done.
///
/// Fails with the error of the first answer that fails, and then changes
/// nothing.
pub fn check_collisions(dt: Fixed, entities: &mut Vec<Entity>) -> (r: Result<(), PhysicsError>)
    ensures
        match spec_collisions(dt, old(entities)@) {
            Ok(next) => r is Ok && final(entities)@ == next,
            Err(e) => r == Err::<(), PhysicsError>(e) && final(entities)@ == old(entities)@,
        },
{
    match resolved(dt, entities) {
        Ok(next) => {
            *entities = next;
            Ok(())
        },
        Err(e) => Err(e),
    }
}

/// One whole tick: reset the forces, add gravity, drag and the force of the
/// keys, resolve the collisions, move the spheres.
///
/// Fails with the error of the first step that fails; the world is then as
/// it was before the tick.
pub fn tick(dt: Fixed, keys: KeyState, entities: &mut Vec<Entity>) -> (r: Result<(), PhysicsError>)
    ensures
        match spec_tick(dt, keys, old(entities)@) {
            Ok(next) => r is Ok && final(entities)@ == next,
            Err(e) => r == Err::<(), PhysicsError>(e) && final(entities)@ == old(entities)@,
        },
{
    let w1: Vec<Entity> = match stage_all(Stage::Reset, entities) {
        Some(w) => w,
        None => {
            return Err(PhysicsError::Overflow);
        },
    };
    let w2: Vec<Entity> = match stage_all(Stage::Gravity, &w1) {
        Some(w) => w,
        None => {
            return Err(PhysicsError::Overflow);
        },
    };
    let w3: Vec<Entity> = match stage_all(Stage::Friction, &w2) {
        Some(w) => w,
        None => {
            return Err(PhysicsError::Overflow);
        },
    };
    let w4: Vec<Entity> = match stage_all(Stage::Input(keys), &w3) {
        Some(w) => w,
        None => {
            return Err(PhysicsError::Overflow);
        },
    };
    let w5: Vec<Entity> = match resolved(dt, &w4) {
        Ok(w) => w,
        Err(e) => {
            return Err(e);
        },
    };
    let w6: Vec<Entity> = match moved_all(dt, &w5) {
        Ok(w) => w,
        Err(e) => {
            return Err(e);
        },
    };
    *entities = w6;
    Ok(())
}

} // verus!
