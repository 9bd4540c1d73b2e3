//! What holds of the simulation as a whole, proved from the definitions of
//! its steps.

use vstd::prelude::*;
use crate::collisions::{
    collision_normal, doubled_offset, magnitude, spec_collisions, spec_tick,
};
use crate::components::{AABB, Entity, PhysicsError, PhysicsSphere, axis_overlap, push_distance};
use crate::fixed::{
    Fixed, SCALE, div_raw, is_floor_sqrt, lemma_floor_sqrt_is, lemma_trunc_div_exact, mul_raw,
    trunc_div,
};
use crate::systems::{GRAVITY_Y, KeyState, Stage, spec_stage_all, zero_vector};
use crate::vector::{Vec3, dot_sum};

verus! {

/// Nothing times anything is nothing, also after rounding.
pub proof fn lemma_mul_raw_zero(a: int)
    ensures
        mul_raw(0, a) == 0,
        mul_raw(a, 0) == 0,
{
    assert(0 * a == 0 && a * 0 == 0) by (nonlinear_arith);
}

/// Nothing over anything is nothing.
pub proof fn lemma_div_raw_zero(d: int)
    requires
        d != 0,
    ensures
        div_raw(0, d) == 0,
{
    assert(0 * SCALE == 0);
    if d > 0 {
        vstd::arithmetic::div_mod::lemma_div_basics_1(d);
    } else {
        vstd::arithmetic::div_mod::lemma_div_basics_1(-d);
    }
}

/// Multiplying by one whole, of either sign, changes at most the sign.
pub proof fn lemma_mul_raw_unit(a: int)
    ensures
        mul_raw(SCALE as int, a) == a,
        mul_raw(-SCALE, a) == -a,
        mul_raw(a, SCALE as int) == a,
        mul_raw(a, -SCALE) == -a,
{
    lemma_trunc_div_exact(a, SCALE as int);
    lemma_trunc_div_exact(-a, SCALE as int);
    assert(SCALE * a == a * SCALE && a * SCALE == a * SCALE) by (nonlinear_arith);
    assert((-SCALE) * a == (-a) * SCALE && a * (-SCALE) == (-a) * SCALE) by (nonlinear_arith);
}

/// An exact product of raw values is divided by the scale without rounding.
pub proof fn lemma_mul_raw_exact(a: int, b: int, q: int)
    requires
        a * b == q * SCALE,
    ensures
        mul_raw(a, b) == q,
{
    lemma_trunc_div_exact(q, SCALE as int);
}

/// An exact quotient of raw values is not rounded.
pub proof fn lemma_div_raw_exact(a: int, d: int, q: int)
    requires
        d != 0,
        a * SCALE == q * d,
    ensures
        div_raw(a, d) == q,
{
    lemma_trunc_div_exact(q, d);
}

/// Two boxes intersect whichever of them is asked.
pub proof fn law_intersects_is_symmetric(a: AABB, b: AABB)
    ensures
        a.spec_intersects(b) == b.spec_intersects(a),
{
}

/// A box that lies around a centre is not changed by being moved to that
/// centre again; so a new box is not changed by an update to the centre it
/// was made around.
pub proof fn law_update_to_same_center_changes_nothing(b: AABB, center: Vec3)
    requires
        b.centered_at(center),
    ensures
        AABB::spec_around(center, b.half_extents) == Some(b),
{
    let again = AABB::spec_around(center, b.half_extents);
    assert(again is Some);
    assert(again->0.min@ == b.min@);
    assert(again->0.max@ == b.max@);
    assert(again->0.min.x == b.min.x && again->0.min.y == b.min.y && again->0.min.z == b.min.z);
    assert(again->0.max.x == b.max.x && again->0.max.y == b.max.y && again->0.max.z == b.max.z);
}

/// What [`law_update_to_same_center_changes_nothing`] says of a new box.
pub proof fn law_new_then_update_changes_nothing(center: Vec3, half_extents: Vec3)
    requires
        AABB::spec_new(center, half_extents) is Ok,
    ensures
        AABB::spec_around(center, AABB::spec_new(center, half_extents)->Ok_0.half_extents) == Some(
            AABB::spec_new(center, half_extents)->Ok_0,
        ),
{
}

/// On a sphere at rest, the force after reset, gravity and drag is the
/// weight alone: gravity times the mass along the y axis, nothing along the
/// others.
pub proof fn law_force_at_rest_is_weight(s: PhysicsSphere)
    requires
        s.velocity.0@ == (0int, 0int, 0int),
        s.with_force(zero_vector()).spec_gravity() is Some,
    ensures
        s.with_force(zero_vector()).spec_gravity()->0.spec_friction() is Some,
        s.with_force(zero_vector()).spec_gravity()->0.spec_friction()->0.force.0@ == (
            0int,
            mul_raw(GRAVITY_Y as int, s.mass.0@),
            0int,
        ),
{
    lemma_mul_raw_zero(s.mass.0@);
}

/// A stage other than motion leaves position, velocity, mass, radius and box
/// of every sphere as they were.
pub proof fn lemma_force_stage_keeps_state(stage: Stage, e: Entity)
    requires
        !(stage is Motion),
        e.spec_stage(stage) is Some,
    ensures
        e is Sphere ==> {
            let after = e.spec_stage(stage)->0;
            &&& after is Sphere
            &&& after->control == e->control
            &&& after->body.position == e->body.position
            &&& after->body.velocity == e->body.velocity
            &&& after->body.mass == e->body.mass
            &&& after->body.radius == e->body.radius
            &&& after->body.aabb == e->body.aabb
        },
        e is Surface ==> e.spec_stage(stage)->0 == e,
{
}

/// With no time elapsed, collisions and motion change nothing, and a whole
/// tick leaves the position and the velocity of every sphere, and every
/// surface, as they were.
pub proof fn law_zero_time_moves_nothing(keys: KeyState, world: Seq<Entity>)
    requires
        spec_tick(Fixed { raw: 0 }, keys, world) is Ok,
    ensures
        spec_collisions(Fixed { raw: 0 }, world) == Ok::<Seq<Entity>, PhysicsError>(world),
        spec_stage_all(Stage::Motion(Fixed { raw: 0 }), world) == Some(world),
        spec_tick(Fixed { raw: 0 }, keys, world)->Ok_0.len() == world.len(),
        forall|i: int|
            0 <= i < world.len() ==> {
                let after = (#[trigger] spec_tick(Fixed { raw: 0 }, keys, world)->Ok_0[i]);
                match world[i] {
                    Entity::Sphere { body, control } => {
                        &&& after is Sphere
                        &&& after->body.position == body.position
                        &&& after->body.velocity == body.velocity
                    },
                    Entity::Surface { surface } => after == world[i],
                }
            },
{
    let dt = Fixed { raw: 0 };
    lemma_motionless(world);
    let w1 = spec_stage_all(Stage::Reset, world)->0;
    let w2 = spec_stage_all(Stage::Gravity, w1)->0;
    let w3 = spec_stage_all(Stage::Friction, w2)->0;
    let w4 = spec_stage_all(Stage::Input(keys), w3)->0;
    lemma_motionless(w4);
    let w6 = spec_tick(dt, keys, world)->Ok_0;
    assert(w6 == w4);
    assert forall|i: int| 0 <= i < world.len() implies {
        let after = (#[trigger] w6[i]);
        match world[i] {
            Entity::Sphere { body, control } => {
                &&& after is Sphere
                &&& after->body.position == body.position
                &&& after->body.velocity == body.velocity
            },
            Entity::Surface { surface } => after == world[i],
        }
    } by {
        assert(world[i].spec_stage(Stage::Reset) is Some);
        lemma_force_stage_keeps_state(Stage::Reset, world[i]);
        assert(w1[i] == world[i].spec_stage(Stage::Reset)->0);
        assert(w1[i].spec_stage(Stage::Gravity) is Some);
        lemma_force_stage_keeps_state(Stage::Gravity, w1[i]);
        assert(w2[i] == w1[i].spec_stage(Stage::Gravity)->0);
        assert(w2[i].spec_stage(Stage::Friction) is Some);
        lemma_force_stage_keeps_state(Stage::Friction, w2[i]);
        assert(w3[i] == w2[i].spec_stage(Stage::Friction)->0);
        assert(w3[i].spec_stage(Stage::Input(keys)) is Some);
        lemma_force_stage_keeps_state(Stage::Input(keys), w3[i]);
        assert(w4[i] == w3[i].spec_stage(Stage::Input(keys))->0);
    }
}

/// Motion over no time is no motion.
pub proof fn lemma_motionless(world: Seq<Entity>)
    ensures
        spec_stage_all(Stage::Motion(Fixed { raw: 0 }), world) == Some(world),
{
    let stage = Stage::Motion(Fixed { raw: 0 });
    assert forall|i: int| 0 <= i < world.len() implies (#[trigger] world[i]).spec_stage(stage)
        == Some(world[i]) by {}
    assert(Seq::new(world.len(), |i: int| world[i].spec_stage(stage)->0) =~= world);
}

/// Whether `n` is one whole, of either sign, along exactly one axis.
pub open spec fn is_axis_unit(n: Vec3) -> bool {
    ||| (magnitude(n.x@) == SCALE && n.y@ == 0 && n.z@ == 0)
    ||| (n.x@ == 0 && magnitude(n.y@) == SCALE && n.z@ == 0)
    ||| (n.x@ == 0 && n.y@ == 0 && magnitude(n.z@) == SCALE)
}

/// The contact normal of two boxes is a unit vector along one axis.
pub proof fn lemma_collision_normal_is_axis_unit(a: AABB, b: AABB)
    ensures
        is_axis_unit(collision_normal(a, b)),
{
}

/// A unit vector along an axis is its own normalization.
pub proof fn lemma_axis_unit_is_normalized(n: Vec3)
    requires
        is_axis_unit(n),
    ensures
        n.spec_normalized() == Some(n),
{
    let whole: int = SCALE as int;
    assert(dot_sum(n@, n@) == whole * whole) by (nonlinear_arith)
        requires
            whole == 1_000_000,
            dot_sum(n@, n@) == n.x@ * n.x@ + n.y@ * n.y@ + n.z@ * n.z@,
            (n.x@ == whole || n.x@ == -whole) && n.y@ == 0 && n.z@ == 0 || n.x@ == 0 && (n.y@
                == whole || n.y@ == -whole) && n.z@ == 0 || n.x@ == 0 && n.y@ == 0 && (n.z@ == whole
                || n.z@ == -whole),
    ;
    assert(is_floor_sqrt(whole * whole, whole)) by (nonlinear_arith)
        requires
            whole == 1_000_000,
    ;
    lemma_floor_sqrt_is(whole * whole, whole);
    let len = Fixed { raw: SCALE };
    assert(n.spec_length() == Some(len));
    lemma_div_raw_zero(whole);
    lemma_div_raw_exact(whole, whole, whole);
    lemma_div_raw_exact(-whole, whole, -whole);
    assert(n.x.spec_div(len) == Some(n.x));
    assert(n.y.spec_div(len) == Some(n.y));
    assert(n.z.spec_div(len) == Some(n.z));
}

/// Along a unit vector on one axis, the distance to push is the overlap on
/// that axis.
pub proof fn lemma_push_distance_on_axis(o: (int, int, int), n: Vec3)
    requires
        is_axis_unit(n),
    ensures
        n.x@ != 0 ==> push_distance(o, n@) == o.0,
        n.y@ != 0 ==> push_distance(o, n@) == o.1,
        n.z@ != 0 ==> push_distance(o, n@) == o.2,
{
    lemma_trunc_div_exact(o.0, SCALE as int);
    lemma_trunc_div_exact(o.1, SCALE as int);
    lemma_trunc_div_exact(o.2, SCALE as int);
}

/// The overlap of two intervals is gone once the first has been moved by
/// the overlap toward the side on which its centre lies.
pub proof fn lemma_overlap_undone(a_min: int, a_max: int, b_min: int, b_max: int)
    ensures
        ({
            let o = axis_overlap(a_min, a_max, b_min, b_max);
            let move_by = if doubled_offset(a_min, a_max, b_min, b_max) >= 0 {
                o
            } else {
                -o
            };
            axis_overlap(a_min + move_by, a_max + move_by, b_min, b_max) == 0
        }),
{
}

/// After the push along the contact normal of two boxes, the first box no
/// longer reaches into the second on the axis of the normal, and has not
/// moved on the other axes.
///
/// `a` is the first box, around `center`; `push` is what
/// `overlap_push_in_direction` returns for the contact normal, and `moved`
/// is `a` after its centre has been moved by `push`.
pub proof fn law_push_leaves_no_overlap(a: AABB, b: AABB, center: Vec3, push: Vec3, moved: AABB)
    requires
        a.centered_at(center),
        a.spec_overlap_push_in_direction(b, collision_normal(a, b)) == Ok::<Vec3, PhysicsError>(
            push,
        ),
        center.spec_add(push) is Some,
        AABB::spec_around(center.spec_add(push)->0, a.half_extents) == Some(moved),
    ensures
        ({
            let n = collision_normal(a, b);
            &&& n.x@ != 0 ==> axis_overlap(moved.min.x@, moved.max.x@, b.min.x@, b.max.x@) == 0
                && push.y@ == 0 && push.z@ == 0
            &&& n.y@ != 0 ==> axis_overlap(moved.min.y@, moved.max.y@, b.min.y@, b.max.y@) == 0
                && push.x@ == 0 && push.z@ == 0
            &&& n.z@ != 0 ==> axis_overlap(moved.min.z@, moved.max.z@, b.min.z@, b.max.z@) == 0
                && push.x@ == 0 && push.y@ == 0
        }),
{
    let n = collision_normal(a, b);
    lemma_collision_normal_is_axis_unit(a, b);
    lemma_axis_unit_is_normalized(n);
    let overlap = a.spec_overlap(b)->0;
    lemma_push_distance_on_axis(overlap@, n);
    let distance = push_distance(overlap@, n@);
    lemma_mul_raw_zero(distance);
    lemma_mul_raw_unit(distance);
    lemma_overlap_undone(a.min.x@, a.max.x@, b.min.x@, b.max.x@);
    lemma_overlap_undone(a.min.y@, a.max.y@, b.min.y@, b.max.y@);
    lemma_overlap_undone(a.min.z@, a.max.z@, b.min.z@, b.max.z@);
}

/// The triple that is `x` on the given axis (0, 1 or 2) and zero on the
/// others.
pub open spec fn on_axis(axis: int, x: int) -> (int, int, int) {
    (
        if axis == 0 {
            x
        } else {
            0
        },
        if axis == 1 {
            x
        } else {
            0
        },
        if axis == 2 {
            x
        } else {
            0
        },
    )
}

/// The dot product of two triples on the same axis is the product of their
/// entries.
pub proof fn lemma_dot_on_axis(axis: int, x: int, y: int)
    requires
        0 <= axis <= 2,
    ensures
        dot_sum(on_axis(axis, x), on_axis(axis, y)) == x * y,
{
    assert(0 * 0 == 0 && x * y + 0 + 0 == x * y && 0 + x * y + 0 == x * y && 0 + 0 + x * y == x
        * y) by (nonlinear_arith);
}

/// What the exactness of the three roundings in a head-on exchange comes
/// to: the change of velocity is exactly twice the speed.
pub proof fn lemma_exchange_is_exact(v: int, m: int, dt: int, j: int, f: int, a: int)
    requires
        m > 0,
        2 * v * m == j * SCALE,
        j * SCALE == f * dt,
        f * SCALE == a * m,
    ensures
        a * dt == (2 * v) * SCALE,
        (-a) * dt == (-(2 * v)) * SCALE,
{
    let whole: int = SCALE as int;
    assert((a * dt) * m == ((2 * v) * whole) * m) by (nonlinear_arith)
        requires
            2 * v * m == j * whole,
            j * whole == f * dt,
            f * whole == a * m,
    ;
    vstd::arithmetic::mul::lemma_mul_equality_converse(m, a * dt, (2 * v) * whole);
    assert((a * dt) * m == m * (a * dt) && ((2 * v) * whole) * m == m * ((2 * v) * whole))
        by (nonlinear_arith);
    assert((-a) * dt == -(a * dt) && (-(2 * v)) * whole == -((2 * v) * whole)) by (nonlinear_arith);
}

/// Two spheres of equal mass that meet head-on along an axis with
/// velocities `v` and `-v` leave with velocities `-v` and `v`, when no
/// rounding takes place on the way.
///
/// The spheres carry no force before the collision. The contact normal lies
/// along the axis (`sigma` is its sign). No rounding takes place when there
/// are whole numbers `j`, `f` and `a` with `2 v m = j * SCALE` (the
/// impulse), `j * SCALE = f * dt` (the force) and `f * SCALE = a * m` (the
/// acceleration); `m`, `dt` and `v` are raw values. The velocities are those
/// after the collision has been answered and the spheres have been moved.
pub proof fn law_head_on_exchange(
    dt: Fixed,
    s1: PhysicsSphere,
    s2: PhysicsSphere,
    axis: int,
    sigma: int,
    v: int,
    j: int,
    f: int,
    a: int,
)
    requires
        0 <= axis <= 2,
        sigma == 1 || sigma == -1,
        dt@ != 0,
        s1.mass == s2.mass,
        s1.mass.wf(),
        s1.velocity.0@ == on_axis(axis, v),
        s2.velocity.0@ == on_axis(axis, -v),
        s1.force.0@ == (0int, 0int, 0int),
        s2.force.0@ == (0int, 0int, 0int),
        crate::collisions::spec_contact(s1, s2) is Ok,
        crate::collisions::spec_contact(s1, s2)->Ok_0.normal@ == on_axis(axis, sigma * SCALE),
        2 * v * s1.mass.0@ == j * SCALE,
        j * SCALE == f * dt@,
        f * SCALE == a * s1.mass.0@,
        crate::collisions::spec_movable_response(dt, s1, s2) is Ok,
        crate::collisions::spec_movable_response(dt, s1, s2)->Ok_0.0.spec_motion(dt) is Some,
        crate::collisions::spec_movable_response(dt, s1, s2)->Ok_0.1.spec_motion(dt) is Some,
    ensures
        crate::collisions::spec_movable_response(dt, s1, s2)->Ok_0.0.spec_motion(dt)->0.velocity.0@
            == on_axis(axis, -v),
        crate::collisions::spec_movable_response(dt, s1, s2)->Ok_0.1.spec_motion(dt)->0.velocity.0@
            == on_axis(axis, v),
{
    let whole: int = SCALE as int;
    let m: int = s1.mass.0@;
    let normal = crate::collisions::spec_contact(s1, s2)->Ok_0.normal;
    let dv = s2.velocity.0.spec_sub(s1.velocity.0)->0;
    assert(dv@ == on_axis(axis, -(2 * v)));
    // The relative velocity along the normal.
    let q: int = -(2 * v) * sigma;
    lemma_dot_on_axis(axis, -(2 * v), sigma * whole);
    assert((-(2 * v)) * (sigma * whole) == q * whole) by (nonlinear_arith)
        requires
            q == -(2 * v) * sigma,
    ;
    lemma_trunc_div_exact(q, whole);
    let rel = dv.spec_dot(normal)->0;
    assert(rel@ == q);
    // The shared mass of two equal masses is that mass.
    assert(m * (2 * m) == 2 * (m * m) && m + m == 2 * m) by (nonlinear_arith);
    lemma_trunc_div_exact(m, 2 * m);
    let shared = crate::collisions::spec_shared_mass(s1.mass.0, s2.mass.0)->0;
    assert(shared@ == m);
    // The impulse.
    assert(q * m == (-(sigma * j)) * whole) by (nonlinear_arith)
        requires
            q == -(2 * v) * sigma,
            2 * v * m == j * whole,
            sigma == 1 || sigma == -1,
    ;
    lemma_mul_raw_exact(q, m, -(sigma * j));
    let amount: int = sigma * j;
    assert((sigma * whole) * amount == j * whole) by (nonlinear_arith)
        requires
            amount == sigma * j,
            sigma == 1 || sigma == -1,
    ;
    lemma_mul_raw_exact(sigma * whole, amount, j);
    lemma_mul_raw_zero(amount);
    // The force.
    lemma_div_raw_exact(j, dt@, f);
    lemma_div_raw_zero(dt@);
    let force = crate::collisions::spec_impulse_force(
        dt,
        s1.velocity.0,
        s2.velocity.0,
        s1.mass.0,
        s2.mass.0,
        normal,
    )->0;
    assert(force@ == on_axis(axis, f));
    let after = crate::collisions::spec_movable_response(dt, s1, s2)->Ok_0;
    assert(after.0.force.0@ == on_axis(axis, -f));
    assert(after.1.force.0@ == on_axis(axis, f));
    assert(after.0.velocity == s1.velocity && after.1.velocity == s2.velocity);
    assert(after.0.mass == s1.mass && after.1.mass == s2.mass);
    // The motion.
    assert((-f) * whole == (-a) * m) by (nonlinear_arith)
        requires
            f * whole == a * m,
    ;
    lemma_div_raw_exact(-f, m, -a);
    lemma_div_raw_exact(f, m, a);
    lemma_div_raw_zero(m);
    lemma_exchange_is_exact(v, m, dt@, j, f, a);
    lemma_mul_raw_exact(-a, dt@, -(2 * v));
    lemma_mul_raw_exact(a, dt@, 2 * v);
    lemma_mul_raw_zero(dt@);
}

/// Whether `after` is `before` in a later state: a surface is unchanged; a
/// sphere keeps its steering mark, mass, radius and half-extents, and its box
/// stays well formed if it was.
pub open spec fn same_thing(before: Entity, after: Entity) -> bool {
    match before {
        Entity::Surface { surface } => after == before,
        Entity::Sphere { body, control } => {
            &&& after is Sphere
            &&& after->control == control
            &&& after->body.mass == body.mass
            &&& after->body.radius == body.radius
            &&& after->body.aabb.half_extents == body.aabb.half_extents
            &&& body.aabb.wf() ==> after->body.aabb.wf()
        },
    }
}

/// Whether two worlds hold the same things in the same places.
pub open spec fn same_things(before: Seq<Entity>, after: Seq<Entity>) -> bool {
    &&& after.len() == before.len()
    &&& forall|k: int| 0 <= k < before.len() ==> same_thing(before[k], #[trigger] after[k])
}

/// A stage makes no entity into another.
pub proof fn lemma_stage_keeps_things(stage: Stage, world: Seq<Entity>)
    requires
        spec_stage_all(stage, world) is Some,
    ensures
        same_things(world, spec_stage_all(stage, world)->0),
{
    let after = spec_stage_all(stage, world)->0;
    assert forall|k: int| 0 <= k < world.len() implies same_thing(world[k], #[trigger] after[k]) by {
        assert(world[k].spec_stage(stage) is Some);
        assert(after[k] == world[k].spec_stage(stage)->0);
    }
}

/// Looking at one pair makes no entity into another.
pub proof fn lemma_pair_keeps_things(dt: Fixed, world: Seq<Entity>, i: int, j: int)
    requires
        0 <= i < j < world.len(),
        crate::collisions::spec_resolve_pair(dt, world, i, j) is Ok,
    ensures
        same_things(world, crate::collisions::spec_resolve_pair(dt, world, i, j)->Ok_0),
{
    reveal(crate::collisions::spec_resolve_pair);
}

/// Looking at all pairs from `(i, j)` on makes no entity into another.
pub proof fn lemma_pairs_keep_things(dt: Fixed, world: Seq<Entity>, n: int, i: int, j: int)
    requires
        n == world.len(),
        0 <= i,
        i < n ==> i < j,
        crate::collisions::spec_resolve_from(dt, world, n, i, j) is Ok,
    ensures
        same_things(world, crate::collisions::spec_resolve_from(dt, world, n, i, j)->Ok_0),
    decreases n - i, n - j,
{
    if i >= n {
    } else if j >= n {
        lemma_pairs_keep_things(dt, world, n, i + 1, i + 2);
    } else {
        let next = crate::collisions::spec_resolve_pair(dt, world, i, j)->Ok_0;
        lemma_pair_keeps_things(dt, world, i, j);
        lemma_pairs_keep_things(dt, next, n, i, j + 1);
        let last = crate::collisions::spec_resolve_from(dt, next, n, i, j + 1)->Ok_0;
        assert forall|k: int| 0 <= k < world.len() implies same_thing(world[k], #[trigger] last[k]) by {
            assert(same_thing(world[k], next[k]));
            assert(same_thing(next[k], last[k]));
        }
    }
}

/// A tick neither adds nor removes an entity and makes none into another:
/// surfaces are as before, and every sphere keeps its steering mark, mass,
/// radius and half-extents, with a box that is still well formed.
pub proof fn law_tick_keeps_things(dt: Fixed, keys: KeyState, world: Seq<Entity>)
    requires
        spec_tick(dt, keys, world) is Ok,
    ensures
        same_things(world, spec_tick(dt, keys, world)->Ok_0),
{
    let w1 = spec_stage_all(Stage::Reset, world)->0;
    let w2 = spec_stage_all(Stage::Gravity, w1)->0;
    let w3 = spec_stage_all(Stage::Friction, w2)->0;
    let w4 = spec_stage_all(Stage::Input(keys), w3)->0;
    let w5 = spec_collisions(dt, w4)->Ok_0;
    let w6 = spec_stage_all(Stage::Motion(dt), w5)->0;
    lemma_stage_keeps_things(Stage::Reset, world);
    lemma_stage_keeps_things(Stage::Gravity, w1);
    lemma_stage_keeps_things(Stage::Friction, w2);
    lemma_stage_keeps_things(Stage::Input(keys), w3);
    if dt@ != 0 {
        lemma_pairs_keep_things(dt, w4, w4.len() as int, 0, 1);
    }
    lemma_stage_keeps_things(Stage::Motion(dt), w5);
    assert forall|k: int| 0 <= k < world.len() implies same_thing(world[k], #[trigger] w6[k]) by {
        assert(same_thing(world[k], w1[k]));
        assert(same_thing(w1[k], w2[k]));
        assert(same_thing(w2[k], w3[k]));
        assert(same_thing(w3[k], w4[k]));
        assert(same_thing(w4[k], w5[k]));
        assert(same_thing(w5[k], w6[k]));
    }
}

/// After motion over some time the force is spent and the box of the sphere
/// lies around its position.
pub proof fn law_motion_refreshes_box(s: PhysicsSphere, dt: Fixed)
    requires
        dt@ != 0,
        s.spec_motion(dt) is Some,
    ensures
        s.spec_motion(dt)->0.in_step(),
        s.spec_motion(dt)->0.force.0@ == (0int, 0int, 0int),
{
}

/// A quotient rounded toward zero is as large as the dividend over the
/// divisor, and has the sign of the dividend or is zero.
pub proof fn lemma_trunc_div_size(a: int, d: int)
    requires
        d > 0,
    ensures
        magnitude(trunc_div(a, d)) == magnitude(a) / d,
        a >= 0 ==> trunc_div(a, d) >= 0,
        a <= 0 ==> trunc_div(a, d) <= 0,
{
    vstd::arithmetic::div_mod::lemma_div_pos_is_pos(magnitude(a), d);
}

/// A sphere that does not rise and is not pushed up does not rise after its
/// motion and does not gain height: its speed along y and its height are at
/// most what they were. (With a force of less than one raw unit of
/// acceleration the speed may stay the same.)
pub proof fn law_falling_sphere_descends(s: PhysicsSphere, dt: Fixed)
    requires
        dt@ > 0,
        s.mass.wf(),
        s.velocity.0.y@ <= 0,
        s.force.0.y@ <= 0,
        s.spec_motion(dt) is Some,
    ensures
        s.spec_motion(dt)->0.velocity.0.y@ <= s.velocity.0.y@,
        s.spec_motion(dt)->0.position.0.y@ <= s.position.0.y@,
{
    let whole: int = SCALE as int;
    let m: int = s.mass.0@;
    let f: int = s.force.0.y@;
    let v: int = s.velocity.0.y@;
    lemma_trunc_div_size(f * whole, m);
    let acc: int = div_raw(f, m);
    assert(acc <= 0);
    assert(acc * dt@ <= 0) by (nonlinear_arith)
        requires
            acc <= 0,
            dt@ > 0,
    ;
    lemma_trunc_div_size(acc * dt@, whole);
    assert(v * dt@ <= 0) by (nonlinear_arith)
        requires
            v <= 0,
            dt@ > 0,
    ;
    lemma_trunc_div_size(v * dt@, whole);
}

/// The speed that a sphere of the given mass gains along one axis in `dt`
/// from the force `force` along that axis: force over mass, times `dt`, each
/// step rounded toward zero.
pub open spec fn speed_gain(force: int, mass: int, dt: int) -> int {
    mul_raw(div_raw(force, mass), dt)
}

/// Motion over some time adds to each component of the velocity the speed
/// gained from the force along it.
pub proof fn law_motion_adds_speed_gain(s: PhysicsSphere, dt: Fixed)
    requires
        dt@ != 0,
        s.spec_motion(dt) is Some,
    ensures
        s.spec_motion(dt)->0.velocity.0@ == (
            s.velocity.0.x@ + speed_gain(s.force.0.x@, s.mass.0@, dt@),
            s.velocity.0.y@ + speed_gain(s.force.0.y@, s.mass.0@, dt@),
            s.velocity.0.z@ + speed_gain(s.force.0.z@, s.mass.0@, dt@),
        ),
{
}

/// Of two masses under the same force for the same time, the lighter gains
/// at least as much speed. (Rounding can make the two gains equal.)
pub proof fn law_lighter_mass_gains_more_speed(force: int, light: int, heavy: int, dt: int)
    requires
        0 < light <= heavy,
        dt > 0,
    ensures
        magnitude(speed_gain(force, light, dt)) >= magnitude(speed_gain(force, heavy, dt)),
{
    let whole: int = SCALE as int;
    let pull: int = magnitude(force * whole);
    lemma_trunc_div_size(force * whole, light);
    lemma_trunc_div_size(force * whole, heavy);
    vstd::arithmetic::div_mod::lemma_div_is_ordered_by_denominator(pull, light, heavy);
    vstd::arithmetic::div_mod::lemma_div_pos_is_pos(pull, heavy);
    let fast: int = div_raw(force, light);
    let slow: int = div_raw(force, heavy);
    assert(magnitude(fast) >= magnitude(slow) >= 0);
    assert(magnitude(fast * dt) == magnitude(fast) * dt && magnitude(slow * dt) == magnitude(slow)
        * dt && magnitude(slow) * dt <= magnitude(fast) * dt) by (nonlinear_arith)
        requires
            dt > 0,
            magnitude(fast) >= magnitude(slow) >= 0,
            magnitude(fast) == (if fast >= 0 { fast } else { -fast }),
            magnitude(slow) == (if slow >= 0 { slow } else { -slow }),
            magnitude(fast * dt) == (if fast * dt >= 0 { fast * dt } else { -(fast * dt) }),
            magnitude(slow * dt) == (if slow * dt >= 0 { slow * dt } else { -(slow * dt) }),
    ;
    lemma_trunc_div_size(fast * dt, whole);
    lemma_trunc_div_size(slow * dt, whole);
    vstd::arithmetic::div_mod::lemma_div_is_ordered(
        magnitude(slow) * dt,
        magnitude(fast) * dt,
        whole,
    );
}

/// The triple `v` with its entry on the given axis (0, 1 or 2) turned round.
pub open spec fn turned_round(v: (int, int, int), axis: int) -> (int, int, int) {
    (
        if axis == 0 {
            -v.0
        } else {
            v.0
        },
        if axis == 1 {
            -v.1
        } else {
            v.1
        },
        if axis == 2 {
            -v.2
        } else {
            v.2
        },
    )
}

/// The entry of the triple `v` on the given axis (0, 1 or 2).
pub open spec fn entry(v: (int, int, int), axis: int) -> int {
    if axis == 0 {
        v.0
    } else if axis == 1 {
        v.1
    } else {
        v.2
    }
}

/// The dot product with a triple on one axis is the product with the entry
/// on that axis.
pub proof fn lemma_dot_with_axis(v: (int, int, int), axis: int, y: int)
    requires
        0 <= axis <= 2,
    ensures
        dot_sum(v, on_axis(axis, y)) == entry(v, axis) * y,
{
    assert(v.0 * 0 == 0 && v.1 * 0 == 0 && v.2 * 0 == 0) by (nonlinear_arith);
}

/// What the exactness of the roundings in a bounce comes to: the change of
/// velocity is what the force held before gives, less twice the speed.
pub proof fn lemma_bounce_is_exact(
    v: int,
    m: int,
    dt: int,
    held: int,
    j: int,
    f: int,
    a: int,
    h: int,
)
    requires
        m > 0,
        2 * v * m == j * SCALE,
        j * SCALE == f * dt,
        (held - f) * SCALE == a * m,
        h * m == held * dt,
    ensures
        a * dt == (h - 2 * v) * SCALE,
{
    let whole: int = SCALE as int;
    assert((a * dt) * m == ((h - 2 * v) * whole) * m) by (nonlinear_arith)
        requires
            2 * v * m == j * whole,
            j * whole == f * dt,
            (held - f) * whole == a * m,
            h * m == held * dt,
    ;
    vstd::arithmetic::mul::lemma_mul_equality_converse(m, a * dt, (h - 2 * v) * whole);
    assert((a * dt) * m == m * (a * dt) && ((h - 2 * v) * whole) * m == m * ((h - 2 * v) * whole))
        by (nonlinear_arith);
}

/// A sphere that meets a surface whose normal lies along an axis leaves
/// with its speed along that axis turned round, plus what the force that it
/// held before gives it in `dt`; along the surface it moves as if the
/// surface were not there. This holds when no rounding takes place on the
/// way.
///
/// With `v` the raw speed along the axis and `held` the raw force held
/// along it, the speed after is `h - v`, where `h * m = held * dt` is the
/// gain from the force held. So a sphere that holds no force leaves with
/// `-v`, its speed turned round and not raised; and a sphere that moves
/// into the surface (`v < 0` for a normal along the positive axis) leaves it
/// (`h - v > 0`) whenever the force held would not by itself give it more
/// than its own speed downward (`h > v`).
///
/// `sigma` is the sign of the normal. No rounding takes place when there
/// are whole numbers `j`, `f`, `a` and `h` with `2 v m = j * SCALE` (the
/// impulse), `j * SCALE = f * dt` (the force of the bounce),
/// `(held - f) * SCALE = a * m` (the acceleration) and `h * m = held * dt`.
/// The velocity is that after the collision has been answered and the
/// sphere has been moved.
pub proof fn law_bounce_turns_normal_speed_round(
    dt: Fixed,
    s: PhysicsSphere,
    surface: crate::components::StaticCollision,
    axis: int,
    sigma: int,
    j: int,
    f: int,
    a: int,
    h: int,
)
    requires
        0 <= axis <= 2,
        sigma == 1 || sigma == -1,
        dt@ != 0,
        s.mass.wf(),
        surface.normal.0@ == on_axis(axis, sigma * SCALE),
        2 * entry(s.velocity.0@, axis) * s.mass.0@ == j * SCALE,
        j * SCALE == f * dt@,
        (entry(s.force.0@, axis) - f) * SCALE == a * s.mass.0@,
        h * s.mass.0@ == entry(s.force.0@, axis) * dt@,
        crate::collisions::spec_static_response(dt, s, surface) is Ok,
        crate::collisions::spec_static_response(dt, s, surface)->Ok_0.spec_motion(dt) is Some,
    ensures
        ({
            let before = s.velocity.0@;
            let after = crate::collisions::spec_static_response(dt, s, surface)->Ok_0.spec_motion(
                dt,
            )->0.velocity.0@;
            let m = s.mass.0@;
            &&& entry(after, axis) == h - entry(before, axis)
            &&& axis != 0 ==> after.0 == before.0 + speed_gain(s.force.0.x@, m, dt@)
            &&& axis != 1 ==> after.1 == before.1 + speed_gain(s.force.0.y@, m, dt@)
            &&& axis != 2 ==> after.2 == before.2 + speed_gain(s.force.0.z@, m, dt@)
        }),
{
    let whole: int = SCALE as int;
    let m: int = s.mass.0@;
    let v: int = entry(s.velocity.0@, axis);
    let held: int = entry(s.force.0@, axis);
    let normal = surface.normal.0;
    // The velocity along the normal.
    lemma_dot_with_axis(s.velocity.0@, axis, sigma * whole);
    assert(v * (sigma * whole) == (sigma * v) * whole) by (nonlinear_arith);
    lemma_trunc_div_exact(sigma * v, whole);
    let along = s.velocity.0.spec_dot(normal)->0;
    assert(along@ == sigma * v);
    // The impulse.
    let doubled = s.mass.0.spec_times(-2i64)->0;
    assert(doubled@ == -2 * m);
    assert((-2 * m) * (sigma * v) == (-(sigma * j)) * whole) by (nonlinear_arith)
        requires
            2 * v * m == j * whole,
            sigma == 1 || sigma == -1,
    ;
    lemma_mul_raw_exact(-2 * m, sigma * v, -(sigma * j));
    let amount: int = -(sigma * j);
    assert((sigma * whole) * amount == (-j) * whole) by (nonlinear_arith)
        requires
            amount == -(sigma * j),
            sigma == 1 || sigma == -1,
    ;
    lemma_mul_raw_exact(sigma * whole, amount, -j);
    lemma_mul_raw_zero(amount);
    // The force of the bounce.
    assert((-j) * whole == (-f) * dt@) by (nonlinear_arith)
        requires
            j * whole == f * dt@,
    ;
    lemma_div_raw_exact(-j, dt@, -f);
    lemma_div_raw_zero(dt@);
    let force = crate::collisions::spec_bounce_force(dt, s.velocity.0, s.mass.0, normal)->0;
    assert(force@ == on_axis(axis, -f));
    let after = crate::collisions::spec_static_response(dt, s, surface)->Ok_0;
    assert(entry(after.force.0@, axis) == held - f);
    assert(axis != 0 ==> after.force.0.x@ == s.force.0.x@);
    assert(axis != 1 ==> after.force.0.y@ == s.force.0.y@);
    assert(axis != 2 ==> after.force.0.z@ == s.force.0.z@);
    assert(after.velocity == s.velocity && after.mass == s.mass);
    // The motion.
    lemma_div_raw_exact(held - f, m, a);
    lemma_bounce_is_exact(v, m, dt@, held, j, f, a, h);
    lemma_mul_raw_exact(a, dt@, h - 2 * v);
    law_motion_adds_speed_gain(after, dt);
}

} // verus!
