use crowd_sim::fixed::{ceil_sqrt, Vec3, ONE};
use crowd_sim::motion::{bob_pose, follow, remap, seek_velocity, KeyState};
use crowd_sim::world::{Entity, Sprite, World};

fn mover(x: i64, y: i64, speed: i64) -> Entity {
    Entity {
        position: Vec3::new(x, y, 0),
        scale: Vec3::new(ONE, ONE, ONE),
        rotation_z: 0,
        walk_speed: Some(speed),
        velocity: Some(Vec3::zero()),
        seek_target: None,
        is_camera: false,
        is_camera_target: false,
        sprite: Some(Sprite::Warrior),
    }
}

fn camera_at(x: i64, y: i64, z: i64) -> Entity {
    let mut e = Entity::camera();
    e.position = Vec3::new(x, y, z);
    e
}

const NO_KEYS: KeyState = KeyState { up: false, down: false, left: false, right: false };

#[test]
fn diagonal_input_is_not_clamped() {
    let mut w = World { entities: vec![Entity::player()] };
    let keys = KeyState { up: true, down: false, left: false, right: true };
    w.input_rule(keys);
    let v = w.entities[0].velocity.unwrap();
    assert_eq!(v, Vec3::new(40_000, 40_000, 0));
    let speed = ((v.x as f64).powi(2) + (v.y as f64).powi(2)).sqrt() / ONE as f64;
    assert!((speed - 56.57).abs() < 0.01);
}

#[test]
fn opposite_keys_cancel() {
    let mut w = World { entities: vec![Entity::player()] };
    w.input_rule(KeyState { up: true, down: true, left: true, right: false });
    assert_eq!(w.entities[0].velocity, Some(Vec3::new(-40_000, 0, 0)));
}

#[test]
fn input_rule_is_idempotent() {
    let mut w = World { entities: vec![Entity::player()] };
    w.entities[0].velocity = Some(Vec3::new(7, -3, 2));
    let keys = KeyState { up: false, down: true, left: true, right: false };
    w.input_rule(keys);
    let first = w.entities[0].velocity;
    w.input_rule(keys);
    assert_eq!(w.entities[0].velocity, first);
    assert_eq!(first, Some(Vec3::new(-40_000, -40_000, 0)));
}

#[test]
fn input_rule_leaves_seekers_alone() {
    let mut npc = mover(5_000, 0, 20_000);
    npc.seek_target = Some(0);
    npc.velocity = Some(Vec3::new(1, 2, 3));
    let mut w = World { entities: vec![Entity::player(), npc] };
    w.input_rule(KeyState { up: true, down: false, left: false, right: false });
    assert_eq!(w.entities[1].velocity, Some(Vec3::new(1, 2, 3)));
}

#[test]
fn integration_moves_by_velocity_times_dt() {
    let mut e = mover(0, 0, 10_000);
    e.velocity = Some(Vec3::new(10_000, 0, 0));
    e.scale.x = -ONE;
    let mut w = World { entities: vec![e] };
    w.integration_rule(500_000, &vec![0]);
    assert_eq!(w.entities[0].position, Vec3::new(5_000, 0, 0));
    assert_eq!(w.entities[0].scale.x, ONE);
}

#[test]
fn integration_faces_left_and_keeps_facing_when_still() {
    let mut e = mover(0, 0, 10_000);
    e.velocity = Some(Vec3::new(-2_000, 0, 0));
    let mut w = World { entities: vec![e] };
    w.integration_rule(1_000_000, &vec![0]);
    assert_eq!(w.entities[0].position.x, -2_000);
    assert_eq!(w.entities[0].scale.x, -ONE);
    w.entities[0].velocity = Some(Vec3::new(0, 3_000, 0));
    w.integration_rule(1_000_000, &vec![0]);
    assert_eq!(w.entities[0].scale.x, -ONE);
    assert_eq!(w.entities[0].position, Vec3::new(-2_000, 3_000, 0));
}

#[test]
fn integration_applies_walk_bob_when_moving() {
    let mut e = mover(0, 0, 10_000);
    e.velocity = Some(Vec3::new(0, 1_000, 0));
    let mut w = World { entities: vec![e] };
    w.integration_rule(0, &vec![1_000]);
    assert_eq!(w.entities[0].rotation_z, 40);
    assert_eq!(w.entities[0].scale.y, 1_100);
    w.integration_rule(0, &vec![-1_000]);
    assert_eq!(w.entities[0].rotation_z, -40);
    assert_eq!(w.entities[0].scale.y, 800);
}

#[test]
fn integration_idle_resets_pose() {
    let mut e = mover(1_000, 2_000, 10_000);
    e.rotation_z = 33;
    e.scale = Vec3::new(-ONE, 870, ONE);
    let mut w = World { entities: vec![e] };
    w.integration_rule(16_000, &vec![500]);
    assert_eq!(w.entities[0].rotation_z, 0);
    assert_eq!(w.entities[0].scale, Vec3::new(-ONE, ONE, ONE));
    assert_eq!(w.entities[0].position, Vec3::new(1_000, 2_000, 0));
}

#[test]
fn integration_rounds_toward_zero() {
    let mut e = mover(0, 0, 10_000);
    e.velocity = Some(Vec3::new(-1_500, 1_500, 0));
    let mut w = World { entities: vec![e] };
    w.integration_rule(1_000, &vec![0]);
    assert_eq!(w.entities[0].position, Vec3::new(-1, 1, 0));
}

#[test]
fn depth_follows_height_except_camera() {
    let mut w = World { entities: vec![camera_at(0, 50_000, 7), mover(0, 50_000, 1)] };
    w.depth_rule();
    assert_eq!(w.entities[1].position.z, -50_000);
    assert_eq!(w.entities[0].position, Vec3::new(0, 50_000, 7));
}

#[test]
fn camera_single_step() {
    let mut player = Entity::player();
    player.position = Vec3::new(100_000, 0, 0);
    let mut w = World { entities: vec![camera_at(0, 0, 0), player] };
    w.camera_rule();
    assert_eq!(w.entities[0].position, Vec3::new(1_000, 0, 0));
    assert_eq!(w.entities[1].position, Vec3::new(100_000, 0, 0));
}

#[test]
fn camera_converges_but_never_arrives() {
    let mut player = Entity::player();
    player.position = Vec3::new(100_000, 0, 0);
    let mut w = World { entities: vec![camera_at(0, 0, 0), player] };
    let mut last = 0;
    for _ in 0..2_000 {
        w.camera_rule();
        let x = w.entities[0].position.x;
        assert!(x >= last && x < 100_000);
        last = x;
    }
    assert!(last > 99_000);
}

#[test]
fn camera_rule_needs_one_camera_and_one_target() {
    let mut player = Entity::player();
    player.position = Vec3::new(100_000, 0, 0);
    let mut w = World { entities: vec![camera_at(0, 0, 0)] };
    w.camera_rule();
    assert_eq!(w.entities[0].position, Vec3::zero());
    let mut w = World { entities: vec![camera_at(0, 0, 0), camera_at(5, 5, 5), player] };
    w.camera_rule();
    assert_eq!(w.entities[0].position, Vec3::zero());
    assert_eq!(w.find_sole(true), None);
    assert_eq!(w.find_sole(false), Some(2));
}

#[test]
fn seek_heads_for_target_at_walk_speed() {
    let mut npc = mover(0, 0, 10_000);
    npc.seek_target = Some(1);
    let target = mover(3_000, 4_000, 0);
    let mut w = World { entities: vec![npc, target] };
    w.seek_rule();
    assert_eq!(w.entities[0].velocity, Some(Vec3::new(6_000, 8_000, 0)));
    assert_eq!(w.entities[1].velocity, Some(Vec3::zero()));
}

#[test]
fn seek_on_target_is_zero() {
    let mut npc = mover(2_000, 2_000, 10_000);
    npc.seek_target = Some(1);
    npc.velocity = Some(Vec3::new(9, 9, 9));
    let mut w = World { entities: vec![npc, mover(2_000, 2_000, 0)] };
    w.seek_rule();
    assert_eq!(w.entities[0].velocity, Some(Vec3::zero()));
}

#[test]
fn seek_with_missing_target_keeps_velocity() {
    let mut npc = mover(0, 0, 10_000);
    npc.seek_target = Some(5);
    npc.velocity = Some(Vec3::new(1, 2, 3));
    let mut w = World { entities: vec![npc] };
    w.seek_rule();
    assert_eq!(w.entities[0].velocity, Some(Vec3::new(1, 2, 3)));
}

#[test]
fn seek_velocity_rounds_toward_zero() {
    let v = seek_velocity(Vec3::new(0, 0, 0), Vec3::new(-1_000, 1_000, 1_000), 30_000);
    // ceil(sqrt(3_000_000)) = 1733; 30_000_000 / 1733 = 17311.0...
    assert_eq!(v, Vec3::new(-17_311, 17_311, 17_311));
}

#[test]
fn ceil_sqrt_values() {
    assert_eq!(ceil_sqrt(0), 0);
    assert_eq!(ceil_sqrt(1), 1);
    assert_eq!(ceil_sqrt(2), 2);
    assert_eq!(ceil_sqrt(16), 4);
    assert_eq!(ceil_sqrt(17), 5);
    assert_eq!(ceil_sqrt(3_000_000), 1_733);
    assert_eq!(ceil_sqrt(1u128 << 100), 1u128 << 50);
}

#[test]
fn remap_and_bob_pose() {
    assert_eq!(remap(5, 0, 10, 100, 200), 150);
    assert_eq!(bob_pose(0), (0, 950));
    assert_eq!(bob_pose(1_000), (40, 1_100));
    assert_eq!(bob_pose(-1_000), (-40, 800));
    assert_eq!(bob_pose(500), (20, 1_025));
}

#[test]
fn follow_rounds_toward_zero() {
    assert_eq!(follow(Vec3::new(0, 0, 0), Vec3::new(-250, 99, 100)), Vec3::new(-2, 0, 1));
}

#[test]
fn whole_frame_runs_rules_in_order() {
    let mut npc = mover(0, 10_000, 10_000);
    npc.seek_target = Some(1);
    let mut w = World { entities: vec![Entity::camera(), Entity::player(), npc] };
    let keys = KeyState { up: false, down: false, left: false, right: true };
    w.step(keys, 1_000_000, &vec![0, 0, 0]);
    // The player walks right for a second.
    assert_eq!(w.entities[1].position, Vec3::new(40_000, 0, 0));
    assert_eq!(w.entities[1].velocity, Some(Vec3::new(40_000, 0, 0)));
    // The NPC walked straight down toward the player, then took its depth.
    assert_eq!(w.entities[2].position, Vec3::new(0, 0, 0));
    assert_eq!(w.entities[2].velocity, Some(Vec3::new(0, -10_000, 0)));
    // The camera moved a hundredth of the way toward the player.
    assert_eq!(w.entities[0].position, Vec3::new(400, 0, 0));
    w.step(NO_KEYS, 0, &vec![0, 0, 0]);
    assert_eq!(w.entities[1].velocity, Some(Vec3::zero()));
}
