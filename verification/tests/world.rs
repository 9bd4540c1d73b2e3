use physics_core::collisions::tick;
use physics_core::components::{
    Controllable, Entity, Force, Normal, PhysicsError, PhysicsSphere, Position, SphereSpawnTimer,
    StaticCollision, Velocity, AABB,
};
use physics_core::fixed::Fixed;
use physics_core::scene::{
    setup, spawn_sphere, sphere_at, SPAWN_HEIGHT_HIGH, SPAWN_HEIGHT_LOW, SPAWN_SIDE_HIGH,
    SPAWN_SIDE_LOW, SPAWN_SIZE,
};
use physics_core::systems::KeyState;
use physics_core::vector::Vec3;

fn v(x: i64, y: i64, z: i64) -> Vec3 {
    Vec3::from_raw(x, y, z)
}

fn fx(raw: i64) -> Fixed {
    Fixed::from_raw(raw)
}

fn no_keys() -> KeyState {
    KeyState { jump: false, forward: false, back: false, right: false, left: false }
}

fn body_of(e: &Entity) -> PhysicsSphere {
    match e {
        Entity::Sphere { body, .. } => *body,
        Entity::Surface { .. } => panic!("not a sphere"),
    }
}

fn surface_of(e: &Entity) -> StaticCollision {
    match e {
        Entity::Surface { surface } => *surface,
        Entity::Sphere { .. } => panic!("not a surface"),
    }
}

const MILLIS: u64 = 1_000_000;

#[test]
fn setup_holds_ground_wall_and_ball() {
    let world = setup();
    assert_eq!(world.len(), 3);
    let ground = surface_of(&world[0]);
    assert_eq!(ground.normal, Normal(v(0, 1_000_000, 0)));
    assert_eq!(
        ground.aabb,
        AABB::new(v(0, -1_000_000, 0), v(25_000_000, 1_000_000, 25_000_000)).unwrap()
    );
    let wall = surface_of(&world[1]);
    assert_eq!(wall.normal, Normal(v(0, 0, 1_000_000)));
    assert_eq!(
        wall.aabb,
        AABB::new(v(0, 12_500_000, -12_500_000), v(25_000_000, 25_000_000, 10_000)).unwrap()
    );
    let ball = PhysicsSphere::new(
        v(0, 3_500_000, 0),
        fx(1_000_000),
        fx(1_000_000),
        v(500_000, 500_000, 500_000),
    )
    .unwrap();
    assert_eq!(world[2], Entity::Sphere { body: ball, control: Some(Controllable) });
}

#[test]
fn first_ticks_of_a_fall() {
    let mut world = setup();
    let dt = fx(10_000);
    assert_eq!(tick(dt, no_keys(), &mut world), Ok(()));
    let ball = body_of(&world[2]);
    // the velocity takes up gravity; the position still moves by the
    // velocity from before, which was zero
    assert_eq!(ball.velocity, Velocity(v(0, -98_000, 0)));
    assert_eq!(ball.position, Position(v(0, 3_500_000, 0)));
    assert_eq!(ball.force, Force(v(0, 0, 0)));
    assert_eq!(tick(dt, no_keys(), &mut world), Ok(()));
    let ball = body_of(&world[2]);
    // force -9.8 + 0.098 of drag
    assert_eq!(ball.velocity, Velocity(v(0, -195_020, 0)));
    assert_eq!(ball.position, Position(v(0, 3_499_020, 0)));
    assert_eq!(
        ball.aabb,
        AABB::new(v(0, 3_499_020, 0), v(500_000, 500_000, 500_000)).unwrap()
    );
    assert_eq!(surface_of(&world[0]), surface_of(&setup()[0]));
    assert_eq!(surface_of(&world[1]), surface_of(&setup()[1]));
}

#[test]
fn ball_falls_to_the_ground_and_bounces() {
    let mut world = setup();
    let dt = fx(10_000);
    let ground = surface_of(&world[0]);
    let mut ticks = 0;
    while !body_of(&world[2]).aabb.intersects(&ground.aabb) {
        let before = body_of(&world[2]);
        assert_eq!(tick(dt, no_keys(), &mut world), Ok(()));
        let after = body_of(&world[2]);
        // it descends, faster and faster
        assert!(after.position.0.y.raw() <= before.position.0.y.raw());
        assert!(after.velocity.0.y.raw() < before.velocity.0.y.raw());
        ticks += 1;
        assert!(ticks < 200, "the ball never reached the ground");
    }
    assert!(ticks > 50);
    let falling = body_of(&world[2]);
    assert!(falling.velocity.0.y.raw() < 0);
    assert_eq!(tick(dt, no_keys(), &mut world), Ok(()));
    let bounced = body_of(&world[2]);
    assert!(bounced.velocity.0.y.raw() > 0);
    // the bounce keeps nine tenths of the speed, less what gravity and
    // drag take in one tick
    let speed_in = -falling.velocity.0.y.raw();
    assert!(bounced.velocity.0.y.raw() > speed_in * 8 / 10);
    assert!(bounced.velocity.0.y.raw() < speed_in);
}

#[test]
fn tick_of_first_contact() {
    // The ball as it is when its box first reaches into the ground.
    let mut world = setup();
    let mut ball = body_of(&world[2]);
    ball.position = Position(v(0, 455_348, 0));
    ball.velocity = Velocity(v(0, -5_873_260, 0));
    ball.aabb = AABB::new(v(0, 455_348, 0), v(500_000, 500_000, 500_000)).unwrap();
    world[2] = Entity::Sphere { body: ball, control: Some(Controllable) };
    assert_eq!(tick(fx(10_000), no_keys(), &mut world), Ok(()));
    let after = body_of(&world[2]);
    // force: gravity -9.8, drag +5.87326, bounce 2 * 5.87326 / 0.01 =
    // 1174.652; velocity -5.87326 + 1170.72526 * 0.01
    assert_eq!(after.velocity, Velocity(v(0, 5_833_992, 0)));
    // pushed up by the overlap 0.044652, then moved by the velocity from
    // before: 0.5 - 0.058732
    assert_eq!(after.position, Position(v(0, 441_268, 0)));
    assert_eq!(
        after.aabb,
        AABB::new(v(0, 441_268, 0), v(500_000, 500_000, 500_000)).unwrap()
    );
}

#[test]
fn ball_at_rest_on_the_ground_feels_its_weight() {
    let mut world = setup();
    let mut ball = body_of(&world[2]);
    ball.position = Position(v(0, 500_000, 0));
    ball.aabb = AABB::new(v(0, 500_000, 0), v(500_000, 500_000, 500_000)).unwrap();
    world[2] = Entity::Sphere { body: ball, control: Some(Controllable) };
    assert!(ball.aabb.intersects(&surface_of(&world[0]).aabb));
    let dt = fx(10_000);
    assert_eq!(tick(dt, no_keys(), &mut world), Ok(()));
    // at rest there is nothing to throw back: the weight alone acts
    assert_eq!(body_of(&world[2]).velocity, Velocity(v(0, -98_000, 0)));
    assert_eq!(body_of(&world[2]).position, Position(v(0, 500_000, 0)));
    assert_eq!(tick(dt, no_keys(), &mut world), Ok(()));
    // force -9.8 + 0.098 of drag + 2 * 0.098 / 0.01 from the ground:
    // the fall of the tick before is thrown back
    assert_eq!(body_of(&world[2]).velocity, Velocity(v(0, 980, 0)));
    assert_eq!(body_of(&world[2]).position, Position(v(0, 499_020, 0)));
}

#[test]
fn tick_over_no_time_leaves_position_and_velocity() {
    let mut world = setup();
    let dt = fx(10_000);
    for _ in 0..95 {
        assert_eq!(tick(dt, no_keys(), &mut world), Ok(()));
    }
    let before = world.clone();
    let keys = KeyState { jump: true, left: true, ..no_keys() };
    assert_eq!(tick(fx(0), keys, &mut world), Ok(()));
    assert_eq!(world.len(), before.len());
    assert_eq!(world[0], before[0]);
    assert_eq!(world[1], before[1]);
    let (ball, was) = (body_of(&world[2]), body_of(&before[2]));
    assert_eq!(ball.position, was.position);
    assert_eq!(ball.velocity, was.velocity);
    assert_eq!(ball.aabb, was.aabb);
    assert_eq!(ball.mass, was.mass);
}

#[test]
fn jump_lifts_the_ball() {
    let mut world = setup();
    let dt = fx(10_000);
    let keys = KeyState { jump: true, ..no_keys() };
    assert_eq!(tick(dt, keys, &mut world), Ok(()));
    // (200 - 9.8) * 0.01 = 1.902
    assert_eq!(body_of(&world[2]).velocity, Velocity(v(0, 1_902_000, 0)));
    let keys = KeyState { right: true, forward: true, ..no_keys() };
    assert_eq!(tick(dt, keys, &mut world), Ok(()));
    // x: 10 * 0.01; y: 1.902 + (-9.8 - 1.902) * 0.01; z: -10 * 0.01
    assert_eq!(body_of(&world[2]).velocity, Velocity(v(100_000, 1_784_980, -100_000)));
    assert_eq!(body_of(&world[2]).position, Position(v(0, 3_519_020, 0)));
}

#[test]
fn tick_that_fails_leaves_the_world_as_it_was() {
    let mut world = setup();
    let mut far = body_of(&world[2]);
    far.position = Position(v(0, i64::MAX, 0));
    far.velocity = Velocity(v(0, 1_000_000, 0));
    world.push(Entity::Sphere { body: far, control: None });
    let before = world.clone();
    assert_eq!(tick(fx(10_000), no_keys(), &mut world), Err(PhysicsError::Overflow));
    assert_eq!(world, before);
    // the next tick is on its own
    world.pop();
    assert_eq!(tick(fx(10_000), no_keys(), &mut world), Ok(()));
}

#[test]
fn world_takes_new_spheres_between_ticks() {
    let mut world = setup();
    let dt = fx(10_000);
    assert_eq!(tick(dt, no_keys(), &mut world), Ok(()));
    let fresh = sphere_at(v(1_000_000, 2_000_000, 3_000_000)).unwrap();
    world.push(Entity::Sphere { body: fresh, control: None });
    assert_eq!(tick(dt, no_keys(), &mut world), Ok(()));
    assert_eq!(world.len(), 4);
    // 9.8 * 0.25 / 0.25 * 0.01
    assert_eq!(body_of(&world[3]).velocity, Velocity(v(0, -98_000, 0)));
    assert_eq!(body_of(&world[2]).velocity, Velocity(v(0, -195_020, 0)));
}

#[test]
fn sphere_at_makes_the_spawned_sphere() {
    assert_eq!(SPAWN_SIZE, 250_000);
    let s = sphere_at(v(-10_000_000, 1_000_000, 9_999_999)).unwrap();
    assert_eq!(s.position, Position(v(-10_000_000, 1_000_000, 9_999_999)));
    assert_eq!(s.velocity, Velocity(v(0, 0, 0)));
    assert_eq!(s.force, Force(v(0, 0, 0)));
    assert_eq!(s.radius, fx(250_000));
    assert_eq!(s.mass.value(), fx(250_000));
    assert_eq!(
        s.aabb,
        AABB::new(v(-10_000_000, 1_000_000, 9_999_999), v(250_000, 250_000, 250_000)).unwrap()
    );
    assert_eq!(sphere_at(v(i64::MAX, 0, 0)), Err(PhysicsError::Overflow));
}

#[test]
fn spawn_timer_fires_once_per_period() {
    let mut timer = SphereSpawnTimer::new(200 * MILLIS);
    assert!(!timer.tick(100 * MILLIS));
    assert!(!timer.tick(99 * MILLIS));
    assert!(timer.tick(MILLIS));
    assert!(!timer.tick(199 * MILLIS));
    assert!(timer.tick(MILLIS));
}

#[test]
fn spawn_timer_keeps_the_remainder() {
    let mut timer = SphereSpawnTimer::new(200 * MILLIS);
    // 450 ms: two periods and 50 ms over
    assert!(timer.tick(450 * MILLIS));
    assert!(!timer.tick(149 * MILLIS));
    assert!(timer.tick(MILLIS));
    assert!(!timer.tick(0));
}

#[test]
fn spawn_timer_without_period_fires_every_time() {
    let mut timer = SphereSpawnTimer::new(0);
    assert!(timer.tick(0));
    assert!(timer.tick(5));
    assert!(timer.tick(u64::MAX));
}

#[test]
fn spawn_timer_copes_with_the_longest_times() {
    let mut timer = SphereSpawnTimer::new(u64::MAX);
    assert!(!timer.tick(u64::MAX - 1));
    assert!(timer.tick(u64::MAX));
    assert!(!timer.tick(0));
    assert!(timer.tick(1));
}

#[test]
fn spawn_follows_the_timer() {
    let mut timer = SphereSpawnTimer::new(200 * MILLIS);
    assert_eq!(spawn_sphere(100 * MILLIS, &mut timer), None);
    assert!(spawn_sphere(100 * MILLIS, &mut timer).is_some());
    assert_eq!(spawn_sphere(16 * MILLIS, &mut timer), None);
    assert_eq!(spawn_sphere(183 * MILLIS, &mut timer), None);
    assert!(spawn_sphere(MILLIS, &mut timer).is_some());
}

#[test]
fn spawned_spheres_lie_in_the_spawn_volume() {
    let mut timer = SphereSpawnTimer::new(200 * MILLIS);
    for _ in 0..300 {
        let s = spawn_sphere(200 * MILLIS, &mut timer).unwrap();
        let p = s.position.0;
        assert!(SPAWN_SIDE_LOW <= p.x.raw() && p.x.raw() < SPAWN_SIDE_HIGH);
        assert!(SPAWN_HEIGHT_LOW <= p.y.raw() && p.y.raw() < SPAWN_HEIGHT_HIGH);
        assert!(SPAWN_SIDE_LOW <= p.z.raw() && p.z.raw() < SPAWN_SIDE_HIGH);
        assert_eq!(sphere_at(p), Ok(s));
    }
}

#[test]
fn spawned_spheres_do_not_all_arrive_in_one_place() {
    let mut timer = SphereSpawnTimer::new(200 * MILLIS);
    let first = spawn_sphere(200 * MILLIS, &mut timer).unwrap().position.0;
    let mut other_x = false;
    let mut other_y = false;
    let mut other_z = false;
    for _ in 0..300 {
        let p = spawn_sphere(200 * MILLIS, &mut timer).unwrap().position.0;
        other_x = other_x || p.x != first.x;
        other_y = other_y || p.y != first.y;
        other_z = other_z || p.z != first.z;
    }
    assert!(other_x && other_y && other_z);
}

#[test]
fn ticks_keep_every_thing_what_it_is() {
    let mut world = setup();
    world.push(Entity::Sphere {
        body: sphere_at(v(200_000, 3_600_000, 100_000)).unwrap(),
        control: None,
    });
    let before = world.clone();
    let keys = KeyState { jump: true, right: true, ..no_keys() };
    for _ in 0..150 {
        assert_eq!(tick(fx(10_000), keys, &mut world), Ok(()));
    }
    assert_eq!(world.len(), before.len());
    assert_eq!(world[0], before[0]);
    assert_eq!(world[1], before[1]);
    for i in 2..4 {
        let (now, was) = (body_of(&world[i]), body_of(&before[i]));
        assert_eq!(now.mass, was.mass);
        assert_eq!(now.radius, was.radius);
        assert_eq!(now.aabb.half_extents, was.aabb.half_extents);
        assert!(now.aabb.max.x.raw() >= now.aabb.min.x.raw());
        assert!(now.aabb.max.y.raw() >= now.aabb.min.y.raw());
        assert!(now.aabb.max.z.raw() >= now.aabb.min.z.raw());
        assert_eq!(now.aabb, AABB::new(now.position.0, was.aabb.half_extents).unwrap());
        assert_ne!(now.position, was.position);
    }
    assert!(matches!(world[2], Entity::Sphere { control: Some(Controllable), .. }));
    assert!(matches!(world[3], Entity::Sphere { control: None, .. }));
}
