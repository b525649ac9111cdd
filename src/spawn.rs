//! Building the starting world: the camera, the player, and a crowd of NPCs
//! scattered at random that chase the player.
use vstd::prelude::*;
use rand::rngs::StdRng;
use rand::seq::SliceRandom;
use rand::Rng;
use crate::fixed::{div_trunc_i128, Vec3, ONE};
use crate::world::{sole_tagged, tagged, world_wf, Entity, Sprite, World};

verus! {

#[verifier::external_type_specification]
#[verifier::external_body]
pub struct ExStdRng(StdRng);

/// Relies on rand::Rng::gen_range: a value drawn from the half-open range
/// `lo..hi`, which panics only when the range is empty.
#[verifier::external_body]
fn draw(rng: &mut StdRng, lo: i64, hi: i64) -> (r: i64)
    requires
        lo < hi,
    ensures
        lo <= r < hi,
{
    rng.gen_range(lo..hi)
}

/// Relies on rand::seq::SliceRandom::choose on a slice: `None` for an empty
/// slice, else one of its elements.
#[verifier::external_body]
fn choose_sprite(rng: &mut StdRng, options: &[Sprite]) -> (r: Option<Sprite>)
    ensures
        options@.len() == 0 ==> r is None,
        options@.len() > 0 ==> r is Some && options@.contains(r->0),
{
    options.choose(rng).copied()
}

/// How many NPCs the standard world holds.
pub const NPC_COUNT: usize = 200;

/// Most NPCs that `setup` accepts.
pub const NPC_LIMIT: usize = 1_000_000;

/// The player's walk speed: forty units a second.
pub const PLAYER_SPEED: i64 = 40_000;

/// The camera's walk speed, a placeholder that no rule acts on.
pub const CAMERA_SPEED: i64 = -2_000;

/// The camera's scale in each axis: a quarter.
pub const CAMERA_ZOOM: i64 = 250;

/// NPC positions are drawn from `[-SPAWN_HALF_RANGE, SPAWN_HALF_RANGE)` on
/// each axis and then scaled by one and a half.
pub const SPAWN_HALF_RANGE: i64 = 400_000;

/// Largest magnitude of an NPC's starting coordinate: six hundred units.
pub const SPAWN_EXTENT: i64 = 600_000;

/// Least NPC walk speed: ten units a second.
pub const NPC_SPEED_MIN: i64 = 10_000;

/// NPC walk speeds stay below thirty units a second.
pub const NPC_SPEED_MAX: i64 = 30_000;

/// Index of the camera in a world made by `setup`.
pub const CAMERA_INDEX: usize = 0;

/// Index of the player in a world made by `setup`.
pub const PLAYER_INDEX: usize = 1;

pub open spec fn unit_scale() -> Vec3 {
    Vec3 { x: ONE, y: ONE, z: ONE }
}

pub open spec fn origin() -> Vec3 {
    Vec3 { x: 0, y: 0, z: 0 }
}

/// The camera at the origin, zoomed out to a quarter scale.
pub open spec fn initial_camera() -> Entity {
    Entity {
        position: origin(),
        scale: Vec3 { x: CAMERA_ZOOM, y: CAMERA_ZOOM, z: CAMERA_ZOOM },
        rotation_z: 0,
        walk_speed: Some(CAMERA_SPEED),
        velocity: None,
        seek_target: None,
        is_camera: true,
        is_camera_target: false,
        sprite: None,
    }
}

/// The player at rest at the origin, followed by the camera.
pub open spec fn initial_player() -> Entity {
    Entity {
        position: origin(),
        scale: unit_scale(),
        rotation_z: 0,
        walk_speed: Some(PLAYER_SPEED),
        velocity: Some(origin()),
        seek_target: None,
        is_camera: false,
        is_camera_target: true,
        sprite: Some(Sprite::Cleric),
    }
}

/// A freshly spawned NPC: at rest on the plane within the spawn square, with a
/// walk speed in `[NPC_SPEED_MIN, NPC_SPEED_MAX)`, drawn as a warrior or an
/// archer, chasing the player.
pub open spec fn fresh_npc(e: Entity) -> bool {
    &&& -SPAWN_EXTENT <= e.position.x <= SPAWN_EXTENT
    &&& -SPAWN_EXTENT <= e.position.y <= SPAWN_EXTENT
    &&& e.position.z == 0
    &&& e.scale == unit_scale()
    &&& e.rotation_z == 0
    &&& e.walk_speed is Some
    &&& NPC_SPEED_MIN <= e.walk_speed->0 < NPC_SPEED_MAX
    &&& e.velocity == Some(origin())
    &&& e.seek_target == Some(PLAYER_INDEX)
    &&& !e.is_camera
    &&& !e.is_camera_target
    &&& (e.sprite == Some(Sprite::Warrior) || e.sprite == Some(Sprite::Archer))
}

impl Entity {
    /// The camera at the origin, zoomed out to a quarter scale.
    pub fn camera() -> (e: Entity)
        ensures
            e == initial_camera(),
    {
        Entity {
            position: Vec3::zero(),
            scale: Vec3::new(CAMERA_ZOOM, CAMERA_ZOOM, CAMERA_ZOOM),
            rotation_z: 0,
            walk_speed: Some(CAMERA_SPEED),
            velocity: None,
            seek_target: None,
            is_camera: true,
            is_camera_target: false,
            sprite: None,
        }
    }

    /// The player at rest at the origin, followed by the camera.
    pub fn player() -> (e: Entity)
        ensures
            e == initial_player(),
    {
        Entity {
            position: Vec3::zero(),
            scale: Vec3::new(ONE, ONE, ONE),
            rotation_z: 0,
            walk_speed: Some(PLAYER_SPEED),
            velocity: Some(Vec3::zero()),
            seek_target: None,
            is_camera: false,
            is_camera_target: true,
            sprite: Some(Sprite::Cleric),
        }
    }
}

/// One spawn coordinate: a draw from the half range, scaled by one and a half.
fn spawn_coord(rng: &mut StdRng) -> (r: i64)
    ensures
        -SPAWN_EXTENT <= r <= SPAWN_EXTENT,
{
    let raw = draw(rng, -SPAWN_HALF_RANGE, SPAWN_HALF_RANGE);
    proof {
        crate::fixed::lemma_div_trunc_bounds(3 * raw, 2);
    }
    div_trunc_i128(3 * raw as i128, 2) as i64
}

/// The starting world: the camera at `CAMERA_INDEX`, the player at
/// `PLAYER_INDEX`, then `npc_count` NPCs scattered at random that chase the
/// player.
pub fn setup(rng: &mut StdRng, npc_count: usize) -> (w: World)
    requires
        npc_count <= NPC_LIMIT,
    ensures
        w@.len() == npc_count + 2,
        w@[CAMERA_INDEX as int] == initial_camera(),
        w@[PLAYER_INDEX as int] == initial_player(),
        forall|i: int| 2 <= i < w@.len() ==> fresh_npc(#[trigger] w@[i]),
        sole_tagged(w@, CAMERA_INDEX as int, true),
        sole_tagged(w@, PLAYER_INDEX as int, false),
        world_wf(w@),
{
    let mut entities: Vec<Entity> = Vec::new();
    entities.push(Entity::camera());
    entities.push(Entity::player());
    let options: Vec<Sprite> = vec![Sprite::Warrior, Sprite::Archer];
    let mut k: usize = 0;
    while k < npc_count
        invariant
            k <= npc_count <= NPC_LIMIT,
            entities@.len() == k + 2,
            entities@[0] == initial_camera(),
            entities@[1] == initial_player(),
            forall|i: int| 2 <= i < entities@.len() ==> fresh_npc(#[trigger] entities@[i]),
            options@ == seq![Sprite::Warrior, Sprite::Archer],
        decreases npc_count - k,
    {
        let sprite = choose_sprite(rng, options.as_slice());
        let x = spawn_coord(rng);
        let y = spawn_coord(rng);
        let speed = draw(rng, NPC_SPEED_MIN, NPC_SPEED_MAX);
        proof {
            let s = sprite->0;
            assert(options@.contains(s));
            let j = choose|j: int| 0 <= j < options@.len() && options@[j] == s;
            assert(j == 0 || j == 1);
        }
        entities.push(
            Entity {
                position: Vec3::new(x, y, 0),
                scale: Vec3::new(ONE, ONE, ONE),
                rotation_z: 0,
                walk_speed: Some(speed),
                velocity: Some(Vec3::zero()),
                seek_target: Some(PLAYER_INDEX),
                is_camera: false,
                is_camera_target: false,
                sprite: Some(sprite.unwrap()),
            },
        );
        k += 1;
    }
    let w = World { entities };
    proof {
        assert forall|i: int| 0 <= i < w@.len() implies (#[trigger] w@[i]).wf() && (i != 0 ==> !tagged(
            w@[i],
            true,
        )) && (i != 1 ==> !tagged(w@[i], false)) by {
            if i >= 2 {
                assert(fresh_npc(w@[i]));
            }
        }
    }
    w
}

} // verus!
