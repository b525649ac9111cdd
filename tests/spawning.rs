use crowd_sim::fixed::{Vec3, ONE};
use crowd_sim::spawn::{setup, CAMERA_INDEX, NPC_COUNT, PLAYER_INDEX};
use crowd_sim::world::{Entity, Sprite};
use rand::rngs::StdRng;
use rand::SeedableRng;

#[test]
fn setup_makes_camera_player_and_crowd() {
    let mut rng = StdRng::seed_from_u64(7);
    let w = setup(&mut rng, NPC_COUNT);
    assert_eq!(w.entities.len(), NPC_COUNT + 2);
    assert_eq!(w.entities[CAMERA_INDEX], Entity::camera());
    assert_eq!(w.entities[CAMERA_INDEX].scale, Vec3::new(250, 250, 250));
    assert!(w.entities[CAMERA_INDEX].walk_speed.unwrap() < 0);
    let player = w.entities[PLAYER_INDEX];
    assert!(player.is_camera_target);
    assert_eq!(player.walk_speed, Some(40 * ONE));
    assert_eq!(player.velocity, Some(Vec3::zero()));
    assert_eq!(player.position, Vec3::zero());
    let npcs = &w.entities[2..];
    assert_eq!(npcs.len(), 200);
    for e in npcs {
        assert!(-600_000 <= e.position.x && e.position.x <= 600_000);
        assert!(-600_000 <= e.position.y && e.position.y <= 600_000);
        assert_eq!(e.position.z, 0);
        let s = e.walk_speed.unwrap();
        assert!((10_000..30_000).contains(&s));
        assert_eq!(e.seek_target, Some(PLAYER_INDEX));
        assert_eq!(e.velocity, Some(Vec3::zero()));
        assert!(e.sprite == Some(Sprite::Warrior) || e.sprite == Some(Sprite::Archer));
    }
}

#[test]
fn setup_draws_varied_npcs() {
    let mut rng = StdRng::seed_from_u64(11);
    let w = setup(&mut rng, 50);
    let npcs = &w.entities[2..];
    assert_eq!(npcs.len(), 50);
    assert!(npcs.iter().any(|e| e.walk_speed != npcs[0].walk_speed));
    assert!(npcs.iter().any(|e| e.position.x != npcs[0].position.x));
    assert!(npcs.iter().any(|e| e.position.y != npcs[0].position.y));
    assert!(npcs.iter().any(|e| e.position.x < 0) && npcs.iter().any(|e| e.position.x > 0));
    assert!(npcs.iter().any(|e| e.sprite == Some(Sprite::Warrior)));
    assert!(npcs.iter().any(|e| e.sprite == Some(Sprite::Archer)));
}

#[test]
fn setup_is_deterministic_per_seed() {
    let a = setup(&mut StdRng::seed_from_u64(3), 20);
    let b = setup(&mut StdRng::seed_from_u64(3), 20);
    assert_eq!(a.entities, b.entities);
}

#[test]
fn setup_with_no_npcs() {
    let w = setup(&mut StdRng::seed_from_u64(1), 0);
    assert_eq!(w.entities.len(), 2);
}
