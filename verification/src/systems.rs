//! The steps of a tick: gathering forces, steering, and motion.
//!
//! A tick resets the forces, adds gravity, drag and the player's input,
//! resolves collisions and then moves every sphere. Each step either
//! succeeds on every sphere or leaves the world as it was.

use vstd::prelude::*;
use crate::components::{AABB, Controllable, Entity, Force, PhysicsError, PhysicsSphere, Position, Velocity};
use crate::fixed::Fixed;
use crate::vector::Vec3;

verus! {

/// The raw downward pull on one unit of mass: 9.8 along the negative y axis.
pub const GRAVITY_Y: i64 = -9_800_000;

/// The raw force of a jump: 200 along the y axis.
pub const JUMP_FORCE: i64 = 200_000_000;

/// The raw force of steering: 10 along the x or z axis.
pub const STEER_FORCE: i64 = 10_000_000;

/// The keys that steer the controllable sphere, as the tick sees them.
#[derive(Clone, Copy, Debug, PartialEq, Eq, Structural)]
pub struct KeyState {
    /// The jump key went down since the last tick.
    pub jump: bool,
    /// The key for the negative z direction is held.
    pub forward: bool,
    /// The key for the positive z direction is held.
    pub back: bool,
    /// The key for the positive x direction is held.
    pub right: bool,
    /// The key for the negative x direction is held.
    pub left: bool,
}

/// One step that acts on each sphere by itself.
#[derive(Clone, Copy, Debug, PartialEq, Eq, Structural)]
pub enum Stage {
    /// Set the force to zero.
    Reset,
    /// Add gravity times the mass to the force.
    Gravity,
    /// Add the opposite of the velocity to the force.
    Friction,
    /// Add the force of the keys to the force of a controllable sphere.
    Input(KeyState),
    /// Advance velocity and position by the elapsed time.
    Motion(Fixed),
}

/// The zero vector.
pub open spec fn zero_vector() -> Vec3 {
    Vec3 { x: Fixed { raw: 0 }, y: Fixed { raw: 0 }, z: Fixed { raw: 0 } }
}

/// The pull of gravity on one unit of mass.
pub open spec fn gravity() -> Vec3 {
    Vec3 { x: Fixed { raw: 0 }, y: Fixed { raw: GRAVITY_Y }, z: Fixed { raw: 0 } }
}

/// The force that the keys ask for.
pub open spec fn key_force(keys: KeyState) -> Vec3 {
    Vec3 {
        x: Fixed {
            raw: ((if keys.right { STEER_FORCE as int } else { 0 }) - (if keys.left {
                STEER_FORCE as int
            } else {
                0
            })) as i64,
        },
        y: Fixed { raw: if keys.jump { JUMP_FORCE } else { 0 } },
        z: Fixed {
            raw: ((if keys.back { STEER_FORCE as int } else { 0 }) - (if keys.forward {
                STEER_FORCE as int
            } else {
                0
            })) as i64,
        },
    }
}

impl PhysicsSphere {
    /// The sphere with `force` in place of its force.
    pub open spec fn with_force(self, force: Vec3) -> PhysicsSphere {
        PhysicsSphere { force: Force(force), ..self }
    }

    /// The sphere with `extra` added to its force.
    pub open spec fn spec_pushed(self, extra: Vec3) -> Option<PhysicsSphere> {
        match self.force.0.spec_add(extra) {
            Some(force) => Some(self.with_force(force)),
            None => None,
        }
    }

    /// The sphere after gravity: its force grows by gravity times its mass.
    pub open spec fn spec_gravity(self) -> Option<PhysicsSphere> {
        match gravity().spec_scaled(self.mass.0) {
            Some(weight) => self.spec_pushed(weight),
            None => None,
        }
    }

    /// The sphere after drag: its force grows by the opposite of its
    /// velocity.
    pub open spec fn spec_friction(self) -> Option<PhysicsSphere> {
        match self.velocity.0.spec_neg() {
            Some(drag) => self.spec_pushed(drag),
            None => None,
        }
    }

    /// The sphere after `dt` of motion. With `dt` zero nothing changes.
    /// Otherwise the velocity grows by force over mass times `dt`, the
    /// position grows by the velocity from before the step times `dt`, the
    /// box moves to the new position and the force is spent. A sphere whose
    /// mass is not positive cannot be moved.
    pub open spec fn spec_motion(self, dt: Fixed) -> Option<PhysicsSphere> {
        if dt@ == 0 {
            Some(self)
        } else if self.mass.0@ <= 0 {
            None
        } else {
            match self.force.0.spec_divided(self.mass.0) {
                Some(acceleration) => match (
                    acceleration.spec_scaled(dt),
                    self.velocity.0.spec_scaled(dt),
                ) {
                    (Some(dv), Some(dp)) => match (
                        self.velocity.0.spec_add(dv),
                        self.position.0.spec_add(dp),
                    ) {
                        (Some(velocity), Some(position)) => match AABB::spec_around(
                            position,
                            self.aabb.half_extents,
                        ) {
                            Some(aabb) => Some(
                                PhysicsSphere {
                                    position: Position(position),
                                    velocity: Velocity(velocity),
                                    force: Force(zero_vector()),
                                    aabb,
                                    ..self
                                },
                            ),
                            None => None,
                        },
                        _ => None,
                    },
                    _ => None,
                },
                None => None,
            }
        }
    }

    /// The sphere after one stage; `None` when a value cannot be
    /// represented or, for motion, when the mass is not positive.
    pub open spec fn spec_stage(self, stage: Stage, control: Option<Controllable>) -> Option<
        PhysicsSphere,
    > {
        match stage {
            Stage::Reset => Some(self.with_force(zero_vector())),
            Stage::Gravity => self.spec_gravity(),
            Stage::Friction => self.spec_friction(),
            Stage::Input(keys) => if control is Some {
                self.spec_pushed(key_force(keys))
            } else {
                Some(self)
            },
            Stage::Motion(dt) => self.spec_motion(dt),
        }
    }

    /// Adds `extra` to the force.
    fn pushed(self, extra: Vec3) -> (r: Option<PhysicsSphere>)
        ensures
            r == self.spec_pushed(extra),
    {
        let force: Vec3 = self.force.0.checked_add(extra)?;
        let mut next: PhysicsSphere = self;
        next.force = Force(force);
        Some(next)
    }

    /// Advances the sphere by `dt`.
    fn moved(self, dt: Fixed) -> (r: Option<PhysicsSphere>)
        ensures
            r == self.spec_motion(dt),
    {
        if dt.raw == 0 {
            return Some(self);
        }
        if self.mass.0.raw <= 0 {
            return None;
        }
        let acceleration: Vec3 = self.force.0.divided(self.mass.0)?;
        let dv: Vec3 = acceleration.scaled(dt)?;
        let dp: Vec3 = self.velocity.0.scaled(dt)?;
        let velocity: Vec3 = self.velocity.0.checked_add(dv)?;
        let position: Vec3 = self.position.0.checked_add(dp)?;
        let mut aabb: AABB = self.aabb;
        match aabb.update(position) {
            Ok(()) => {},
            Err(_) => {
                return None;
            },
        }
        Some(
            PhysicsSphere {
                position: Position(position),
                radius: self.radius,
                mass: self.mass,
                velocity: Velocity(velocity),
                force: Force(Vec3::zero()),
                aabb,
            },
        )
    }

    /// Applies one stage to the sphere.
    pub fn stage(self, stage: Stage, control: Option<Controllable>) -> (r: Option<PhysicsSphere>)
        ensures
            r == self.spec_stage(stage, control),
    {
        match stage {
            Stage::Reset => {
                let mut next: PhysicsSphere = self;
                next.force = Force(Vec3::zero());
                Some(next)
            },
            Stage::Gravity => {
                let pull: Vec3 = Vec3::from_raw(0, GRAVITY_Y, 0);
                let weight: Vec3 = pull.scaled(self.mass.0)?;
                self.pushed(weight)
            },
            Stage::Friction => {
                let drag: Vec3 = self.velocity.0.checked_neg()?;
                self.pushed(drag)
            },
            Stage::Input(keys) => {
                if control.is_some() {
                    self.pushed(force_of_keys(keys))
                } else {
                    Some(self)
                }
            },
            Stage::Motion(dt) => self.moved(dt),
        }
    }
}

/// The force that the keys ask for: 200 up for a jump, 10 along z for back
/// less forward, 10 along x for right less left.
pub fn force_of_keys(keys: KeyState) -> (r: Vec3)
    ensures
        r == key_force(keys),
{
    let mut x: i64 = 0;
    let mut y: i64 = 0;
    let mut z: i64 = 0;
    if keys.jump {
        y = y + JUMP_FORCE;
    }
    if keys.forward {
        z = z - STEER_FORCE;
    }
    if keys.back {
        z = z + STEER_FORCE;
    }
    if keys.right {
        x = x + STEER_FORCE;
    }
    if keys.left {
        x = x - STEER_FORCE;
    }
    Vec3::from_raw(x, y, z)
}

impl Entity {
    /// The entity after one stage: a sphere goes through the stage, a
    /// surface stays as it is.
    pub open spec fn spec_stage(self, stage: Stage) -> Option<Entity> {
        match self {
            Entity::Sphere { body, control } => match body.spec_stage(stage, control) {
                Some(next) => Some(Entity::Sphere { body: next, control }),
                None => None,
            },
            Entity::Surface { surface } => Some(self),
        }
    }

    /// Applies one stage to the entity.
    pub fn stage(self, stage: Stage) -> (r: Option<Entity>)
        ensures
            r == self.spec_stage(stage),
    {
        match self {
            Entity::Sphere { body, control } => {
                let next: PhysicsSphere = body.stage(stage, control)?;
                Some(Entity::Sphere { body: next, control })
            },
            Entity::Surface { surface } => Some(self),
        }
    }
}

/// The world after one stage on every entity, when the stage succeeds on
/// each of them.
pub open spec fn spec_stage_all(stage: Stage, world: Seq<Entity>) -> Option<Seq<Entity>> {
    if forall|i: int| 0 <= i < world.len() ==> (#[trigger] world[i]).spec_stage(stage) is Some {
        Some(Seq::new(world.len(), |i: int| world[i].spec_stage(stage)->0))
    } else {
        None
    }
}

/// Applies one stage to every entity and returns the new world, or `None`
/// when the stage fails on one of them.
pub fn stage_all(stage: Stage, entities: &Vec<Entity>) -> (r: Option<Vec<Entity>>)
    ensures
        match spec_stage_all(stage, entities@) {
            Some(next) => r is Some && r->0@ == next,
            None => r is None,
        },
{
    let mut next: Vec<Entity> = Vec::new();
    let mut i: usize = 0;
    while i < entities.len()
        invariant
            i <= entities.len(),
            next@.len() == i,
            forall|k: int| 0 <= k < i ==> (#[trigger] entities@[k]).spec_stage(stage) == Some(next@[k]),
        decreases entities.len() - i,
    {
        match entities[i].stage(stage) {
            Some(e) => {
                next.push(e);
            },
            None => {
                return None;
            },
        }
        i = i + 1;
    }
    assert(next@ =~= Seq::new(entities@.len(), |i: int| entities@[i].spec_stage(stage)->0));
    Some(next)
}

/// What a step on the whole world returns: the world after the stage, or
/// `Overflow` with the world unchanged.
pub open spec fn stage_outcome(
    stage: Stage,
    before: Seq<Entity>,
    after: Seq<Entity>,
    r: Result<(), PhysicsError>,
) -> bool {
    match spec_stage_all(stage, before) {
        Some(next) => r is Ok && after == next,
        None => r == Err::<(), PhysicsError>(PhysicsError::Overflow) && after == before,
    }
}

/// Applies one stage to the world in place.
fn run_stage(stage: Stage, entities: &mut Vec<Entity>) -> (r: Result<(), PhysicsError>)
    ensures
        stage_outcome(stage, old(entities)@, final(entities)@, r),
{
    match stage_all(stage, entities) {
        Some(next) => {
            *entities = next;
            Ok(())
        },
        None => Err(PhysicsError::Overflow),
    }
}

/// Sets the force on every sphere to zero.
pub fn reset_forces(entities: &mut Vec<Entity>)
    ensures
        spec_stage_all(Stage::Reset, old(entities)@) == Some(final(entities)@),
{
    let r: Result<(), PhysicsError> = run_stage(Stage::Reset, entities);
    proof {
        assert forall|i: int| 0 <= i < old(entities)@.len() implies (#[trigger] old(
            entities,
        )@[i]).spec_stage(Stage::Reset) is Some by {}
    }
}

/// Adds gravity to the force on every sphere: 9.8 downward per unit of mass.
///
/// Fails with `Overflow`, and changes nothing, when a force cannot be
/// represented.
pub fn apply_gravity(entities: &mut Vec<Entity>) -> (r: Result<(), PhysicsError>)
    ensures
        stage_outcome(Stage::Gravity, old(entities)@, final(entities)@, r),
{
    run_stage(Stage::Gravity, entities)
}

/// Adds drag to the force on every sphere: the opposite of its velocity.
///
/// Fails with `Overflow`, and changes nothing, when a force cannot be
/// represented.
pub fn apply_friction(entities: &mut Vec<Entity>) -> (r: Result<(), PhysicsError>)
    ensures
        stage_outcome(Stage::Friction, old(entities)@, final(entities)@, r),
{
    run_stage(Stage::Friction, entities)
}

/// Adds the force of the keys to every controllable sphere.
///
/// Fails with `Overflow`, and changes nothing, when a force cannot be
/// represented.
pub fn handle_input(keys: KeyState, entities: &mut Vec<Entity>) -> (r: Result<(), PhysicsError>)
    ensures
        stage_outcome(Stage::Input(keys), old(entities)@, final(entities)@, r),
{
    run_stage(Stage::Input(keys), entities)
}

/// Whether some sphere of the world has a mass that is not positive.
pub open spec fn has_bad_mass(world: Seq<Entity>) -> bool {
    exists|i: int|
        0 <= i < world.len() && (#[trigger] world[i]) is Sphere && world[i]->body.mass.0@ <= 0
}

/// The world after `dt` of motion. With `dt` zero nothing moves. Otherwise
/// a mass that is not positive is an error, and so is a value that cannot
/// be represented.
pub open spec fn spec_motion_all(dt: Fixed, world: Seq<Entity>) -> Result<Seq<Entity>, PhysicsError> {
    if dt@ != 0 && has_bad_mass(world) {
        Err(PhysicsError::NonPositiveMass)
    } else {
        match spec_stage_all(Stage::Motion(dt), world) {
            Some(next) => Ok(next),
            None => Err(PhysicsError::Overflow),
        }
    }
}

/// Whether some sphere of the world has a mass that is not positive.
fn any_bad_mass(entities: &Vec<Entity>) -> (r: bool)
    ensures
        r == has_bad_mass(entities@),
{
    let mut i: usize = 0;
    while i < entities.len()
        invariant
            i <= entities.len(),
            forall|k: int|
                0 <= k < i ==> !((#[trigger] entities@[k]) is Sphere && entities@[k]->body.mass.0@
                    <= 0),
        decreases entities.len() - i,
    {
        match entities[i] {
            Entity::Sphere { body, control } => {
                if body.mass.0.raw <= 0 {
                    return true;
                }
            },
            Entity::Surface { surface } => {},
        }
        i = i + 1;
    }
    false
}

/// The world after `dt` of motion.
pub fn moved_all(dt: Fixed, entities: &Vec<Entity>) -> (r: Result<Vec<Entity>, PhysicsError>)
    ensures
        match spec_motion_all(dt, entities@) {
            Ok(next) => r is Ok && r->Ok_0@ == next,
            Err(e) => r is Err && r->Err_0 == e,
        },
{
    if dt.raw != 0 && any_bad_mass(entities) {
        return Err(PhysicsError::NonPositiveMass);
    }
    match stage_all(Stage::Motion(dt), entities) {
        Some(next) => Ok(next),
        None => Err(PhysicsError::Overflow),
    }
}

/// Moves every sphere by `dt` of elapsed time and spends its force. With
/// `dt` zero nothing moves.
///
/// Fails with `NonPositiveMass` when a sphere has a mass that is not
/// positive, else with `Overflow` when a value cannot be represented; in
/// both cases nothing changes.
pub fn apply_motion(dt: Fixed, entities: &mut Vec<Entity>) -> (r: Result<(), PhysicsError>)
    ensures
        match spec_motion_all(dt, old(entities)@) {
            Ok(next) => r is Ok && final(entities)@ == next,
            Err(e) => r == Err::<(), PhysicsError>(e) && final(entities)@ == old(entities)@,
        },
{
    match moved_all(dt, entities) {
        Ok(next) => {
            *entities = next;
            Ok(())
        },
        Err(e) => Err(e),
    }
}

} // verus!
