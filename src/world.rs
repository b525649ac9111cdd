//! The entity store and the per-frame rules that run over it.
use vstd::prelude::*;
use crate::fixed::{Vec3, COORD_LIMIT, ONE, SPEED_LIMIT};
use crate::motion::{
    advance, advance_spec, bob_pose, bob_rotation_spec, bob_scale_spec, follow, follow_spec,
    input_velocity, input_velocity_spec, seek_velocity, seek_velocity_spec, KeyState, DT_LIMIT,
};

verus! {

/// The image an entity is drawn with.
#[derive(Clone, Copy, Debug, PartialEq, Eq, Structural)]
pub enum Sprite {
    Cleric,
    Warrior,
    Archer,
}

/// A game object: a placement, and the optional parts that the rules act on.
#[derive(Clone, Copy, Debug, PartialEq, Eq)]
pub struct Entity {
    pub position: Vec3,
    pub scale: Vec3,
    /// Tilt about the view axis, in fixed-point radians.
    pub rotation_z: i64,
    /// The walk speed of the entity's move profile, if it has one.
    pub walk_speed: Option<i64>,
    pub velocity: Option<Vec3>,
    /// Index of the entity this one chases, if any.
    pub seek_target: Option<usize>,
    pub is_camera: bool,
    pub is_camera_target: bool,
    pub sprite: Option<Sprite>,
}

impl Entity {
    /// Every quantity is within the limits that the arithmetic is sized for.
    pub open spec fn wf(self) -> bool {
        &&& self.position.bounded(COORD_LIMIT as int)
        &&& (self.walk_speed is Some ==> -SPEED_LIMIT <= self.walk_speed->0 <= SPEED_LIMIT)
        &&& (self.velocity is Some ==> self.velocity->0.bounded(SPEED_LIMIT as int))
    }
}

/// All entities of a world are well formed.
pub open spec fn world_wf(es: Seq<Entity>) -> bool {
    forall|i: int| 0 <= i < es.len() ==> (#[trigger] es[i]).wf()
}

/// The entity at `i` after the seek rule: an entity with a velocity, a walk
/// speed and a target that exists heads for the target at its walk speed.
pub open spec fn seek_entity(es: Seq<Entity>, i: int) -> Entity {
    let e = es[i];
    if e.velocity is Some && e.walk_speed is Some && e.seek_target is Some && (e.seek_target->0 as int)
        < es.len() {
        Entity {
            velocity: Some(
                seek_velocity_spec(
                    e.position,
                    es[e.seek_target->0 as int].position,
                    e.walk_speed->0 as int,
                ),
            ),
            ..e
        }
    } else {
        e
    }
}

pub open spec fn seek_spec(es: Seq<Entity>) -> Seq<Entity> {
    Seq::new(es.len(), |i: int| seek_entity(es, i))
}

/// The entity after the input rule: an entity with a velocity and a walk
/// speed that seeks nothing takes the velocity that the held keys ask for.
pub open spec fn input_entity(e: Entity, keys: KeyState) -> Entity {
    if e.velocity is Some && e.walk_speed is Some && e.seek_target is None {
        Entity { velocity: Some(input_velocity_spec(keys, e.walk_speed->0 as int)), ..e }
    } else {
        e
    }
}

pub open spec fn input_spec(es: Seq<Entity>, keys: KeyState) -> Seq<Entity> {
    Seq::new(es.len(), |i: int| input_entity(es[i], keys))
}

/// The horizontal scale after moving with velocity `v`: facing right for a
/// positive x, left for a negative one, unchanged for zero.
pub open spec fn facing_spec(scale_x: int, v: Vec3) -> int {
    if v.x > 0 {
        ONE as int
    } else if v.x < 0 {
        -ONE
    } else {
        scale_x
    }
}

/// The entity after the integration rule over `dt` microseconds, with the
/// walk-bob sine value `phase`: it moves by its velocity, faces its direction
/// of travel, and takes the bob pose when moving or the idle pose when still.
pub open spec fn integrate_entity(e: Entity, dt: int, phase: int) -> Entity {
    if e.velocity is Some {
        let v = e.velocity->0;
        let sx = facing_spec(e.scale.x as int, v) as i64;
        if v.is_zero() {
            Entity {
                position: advance_spec(e.position, v, dt),
                scale: Vec3 { x: sx, y: ONE, z: e.scale.z },
                rotation_z: 0,
                ..e
            }
        } else {
            Entity {
                position: advance_spec(e.position, v, dt),
                scale: Vec3 { x: sx, y: bob_scale_spec(phase) as i64, z: e.scale.z },
                rotation_z: bob_rotation_spec(phase) as i64,
                ..e
            }
        }
    } else {
        e
    }
}

pub open spec fn integrate_spec(es: Seq<Entity>, dt: int, phases: Seq<i64>) -> Seq<Entity> {
    Seq::new(es.len(), |i: int| integrate_entity(es[i], dt, phases[i] as int))
}

/// The entity after the depth rule: anything but the camera is drawn at a
/// depth of minus its height.
pub open spec fn depth_entity(e: Entity) -> Entity {
    if e.is_camera {
        e
    } else {
        Entity { position: Vec3 { z: (-e.position.y) as i64, ..e.position }, ..e }
    }
}

pub open spec fn depth_spec(es: Seq<Entity>) -> Seq<Entity> {
    Seq::new(es.len(), |i: int| depth_entity(es[i]))
}

/// The entity is the camera (`camera`), or one that the camera may follow
/// (`!camera`).
pub open spec fn tagged(e: Entity, camera: bool) -> bool {
    if camera {
        e.is_camera
    } else {
        e.is_camera_target && !e.is_camera
    }
}

/// `i` is the only entity tagged as `camera` says.
pub open spec fn sole_tagged(es: Seq<Entity>, i: int, camera: bool) -> bool {
    &&& 0 <= i < es.len()
    &&& tagged(es[i], camera)
    &&& forall|j: int| 0 <= j < es.len() && j != i ==> !tagged(#[trigger] es[j], camera)
}

/// After the camera rule: where there is exactly one camera and exactly one
/// entity to follow, the camera moves a hundredth of the way toward it;
/// otherwise nothing changes.
pub open spec fn camera_spec(es: Seq<Entity>) -> Seq<Entity> {
    if (exists|c: int| sole_tagged(es, c, true)) && (exists|t: int| sole_tagged(es, t, false)) {
        let c = choose|c: int| sole_tagged(es, c, true);
        let t = choose|t: int| sole_tagged(es, t, false);
        es.update(c, Entity { position: follow_spec(es[c].position, es[t].position), ..es[c] })
    } else {
        es
    }
}

/// The world after one whole frame.
pub open spec fn frame_spec(es: Seq<Entity>, keys: KeyState, dt: int, phases: Seq<i64>) -> Seq<Entity> {
    camera_spec(depth_spec(integrate_spec(input_spec(seek_spec(es), keys), dt, phases)))
}

/// Every walk-bob sine value is in `[-ONE, ONE]`, one for each entity.
pub open spec fn phases_ok(phases: Seq<i64>, n: int) -> bool {
    phases.len() == n && forall|i: int| 0 <= i < n ==> -ONE <= #[trigger] phases[i] <= ONE
}

/// The entity store.
pub struct World {
    pub entities: Vec<Entity>,
}

impl View for World {
    type V = Seq<Entity>;

    open spec fn view(&self) -> Seq<Entity> {
        self.entities@
    }
}

impl World {
    /// Seek rule: every entity with a velocity, a walk speed and an existing
    /// target heads for that target at its walk speed.
    pub fn seek_rule(&mut self)
        requires
            world_wf(old(self)@),
        ensures
            final(self)@ == seek_spec(old(self)@),
            world_wf(final(self)@),
    {
        let ghost es = self@;
        let n = self.entities.len();
        let mut i: usize = 0;
        while i < n
            invariant
                n == es.len(),
                self@.len() == n,
                0 <= i <= n,
                world_wf(es),
                forall|j: int| 0 <= j < i ==> self@[j] == seek_entity(es, j) && self@[j].wf(),
                forall|j: int| i <= j < n ==> self@[j] == es[j],
            decreases n - i,
        {
            let e = self.entities[i];
            if let (Some(_), Some(speed), Some(t)) = (e.velocity, e.walk_speed, e.seek_target) {
                if t < n {
                    proof {
                        assert(es[i as int].wf());
                        assert(es[t as int].wf());
                        if t < i {
                            assert(self@[t as int] == seek_entity(es, t as int));
                        } else {
                            assert(self@[t as int] == es[t as int]);
                        }
                    }
                    let target = self.entities[t].position;
                    let v = seek_velocity(e.position, target, speed);
                    self.entities[i] = Entity { velocity: Some(v), ..e };
                }
            }
            i += 1;
        }
        assert(self@ =~= seek_spec(es));
    }

    /// Input rule: every entity with a velocity and a walk speed that seeks
    /// nothing takes the velocity that the held keys ask for.
    pub fn input_rule(&mut self, keys: KeyState)
        requires
            world_wf(old(self)@),
        ensures
            final(self)@ == input_spec(old(self)@, keys),
            world_wf(final(self)@),
    {
        let ghost es = self@;
        let n = self.entities.len();
        let mut i: usize = 0;
        while i < n
            invariant
                n == es.len(),
                self@.len() == n,
                0 <= i <= n,
                world_wf(es),
                forall|j: int| 0 <= j < i ==> self@[j] == input_entity(es[j], keys) && self@[j].wf(),
                forall|j: int| i <= j < n ==> self@[j] == es[j],
            decreases n - i,
        {
            let e = self.entities[i];
            if let (Some(_), Some(speed), None) = (e.velocity, e.walk_speed, e.seek_target) {
                let v = input_velocity(keys, speed);
                self.entities[i] = Entity { velocity: Some(v), ..e };
            }
            i += 1;
        }
        assert(self@ =~= input_spec(es, keys));
    }

    /// Integration rule over `dt` microseconds: every entity with a velocity
    /// moves by it and takes its facing and pose; `phases[i]` is the sine of
    /// the walk bob of entity `i`.
    pub fn integration_rule(&mut self, dt: i64, phases: &Vec<i64>)
        requires
            world_wf(old(self)@),
            0 <= dt <= DT_LIMIT,
            phases_ok(phases@, old(self)@.len() as int),
        ensures
            final(self)@ == integrate_spec(old(self)@, dt as int, phases@),
            world_wf(final(self)@),
    {
        let ghost es = self@;
        let n = self.entities.len();
        let mut i: usize = 0;
        while i < n
            invariant
                n == es.len(),
                self@.len() == n,
                0 <= i <= n,
                world_wf(es),
                0 <= dt <= DT_LIMIT,
                phases_ok(phases@, n as int),
                forall|j: int|
                    0 <= j < i ==> self@[j] == integrate_entity(es[j], dt as int, phases@[j] as int)
                        && self@[j].wf(),
                forall|j: int| i <= j < n ==> self@[j] == es[j],
            decreases n - i,
        {
            let e = self.entities[i];
            if let Some(v) = e.velocity {
                let position = advance(e.position, v, dt);
                let sx: i64 = if v.x > 0 {
                    ONE
                } else if v.x < 0 {
                    -ONE
                } else {
                    e.scale.x
                };
                if v.x == 0 && v.y == 0 && v.z == 0 {
                    self.entities[i] = Entity {
                        position,
                        scale: Vec3 { x: sx, y: ONE, z: e.scale.z },
                        rotation_z: 0,
                        ..e
                    };
                } else {
                    let (rotation_z, sy) = bob_pose(phases[i]);
                    self.entities[i] = Entity {
                        position,
                        scale: Vec3 { x: sx, y: sy, z: e.scale.z },
                        rotation_z,
                        ..e
                    };
                }
            }
            i += 1;
        }
        assert(self@ =~= integrate_spec(es, dt as int, phases@));
    }

    /// Depth rule: everything but the camera is drawn at a depth of minus its
    /// height, so lower entities draw in front.
    pub fn depth_rule(&mut self)
        requires
            world_wf(old(self)@),
        ensures
            final(self)@ == depth_spec(old(self)@),
            world_wf(final(self)@),
    {
        let ghost es = self@;
        let n = self.entities.len();
        let mut i: usize = 0;
        while i < n
            invariant
                n == es.len(),
                self@.len() == n,
                0 <= i <= n,
                world_wf(es),
                forall|j: int| 0 <= j < i ==> self@[j] == depth_entity(es[j]) && self@[j].wf(),
                forall|j: int| i <= j < n ==> self@[j] == es[j],
            decreases n - i,
        {
            let e = self.entities[i];
            if !e.is_camera {
                self.entities[i] = Entity { position: Vec3 { z: -e.position.y, ..e.position }, ..e };
            }
            i += 1;
        }
        assert(self@ =~= depth_spec(es));
    }

    /// The index of the only entity tagged as `camera` says, if exactly one is.
    pub fn find_sole(&self, camera: bool) -> (r: Option<usize>)
        ensures
            r is Some ==> sole_tagged(self@, r->0 as int, camera),
            r is None ==> !(exists|i: int| sole_tagged(self@, i, camera)),
    {
        let n = self.entities.len();
        let mut found: Option<usize> = None;
        let mut i: usize = 0;
        while i < n
            invariant
                n == self@.len(),
                0 <= i <= n,
                found is None ==> forall|j: int| 0 <= j < i ==> !tagged(#[trigger] self@[j], camera),
                found is Some ==> found->0 < i && tagged(self@[found->0 as int], camera) && forall|j: int|
                    0 <= j < i && j != found->0 ==> !tagged(#[trigger] self@[j], camera),
            decreases n - i,
        {
            let e = self.entities[i];
            let hit = if camera {
                e.is_camera
            } else {
                e.is_camera_target && !e.is_camera
            };
            if hit {
                if let Some(f) = found {
                    proof {
                        assert forall|k: int| !sole_tagged(self@, k, camera) by {
                            if sole_tagged(self@, k, camera) {
                                if k != f as int {
                                    assert(!tagged(self@[f as int], camera));
                                } else {
                                    assert(!tagged(self@[i as int], camera));
                                }
                            }
                        }
                    }
                    return None;
                }
                found = Some(i);
            }
            i += 1;
        }
        proof {
            if found is None {
                assert forall|k: int| !sole_tagged(self@, k, camera) by {
                    if sole_tagged(self@, k, camera) {
                        assert(!tagged(self@[k], camera));
                    }
                }
            }
        }
        found
    }

    /// Camera rule: where there is exactly one camera and exactly one entity
    /// to follow, the camera moves a hundredth of the way toward it.
    pub fn camera_rule(&mut self)
        requires
            world_wf(old(self)@),
        ensures
            final(self)@ == camera_spec(old(self)@),
            world_wf(final(self)@),
    {
        let ghost es = self@;
        let cam = self.find_sole(true);
        let target = self.find_sole(false);
        if let (Some(c), Some(t)) = (cam, target) {
            proof {
                let cc = choose|k: int| sole_tagged(es, k, true);
                let tt = choose|k: int| sole_tagged(es, k, false);
                assert(cc == c as int) by {
                    if cc != c as int {
                        assert(!tagged(es[c as int], true));
                    }
                }
                assert(tt == t as int) by {
                    if tt != t as int {
                        assert(!tagged(es[t as int], false));
                    }
                }
                assert(es[c as int].wf());
                assert(es[t as int].wf());
            }
            let e = self.entities[c];
            let position = follow(e.position, self.entities[t].position);
            self.entities[c] = Entity { position, ..e };
            proof {
                assert forall|j: int| 0 <= j < self@.len() implies (#[trigger] self@[j]).wf() by {
                    if j != c as int {
                        assert(es[j].wf());
                    }
                }
            }
        }
    }

    /// One frame: seek, input, integration over `dt` microseconds with the
    /// walk-bob sine values `phases`, depth, camera.
    pub fn step(&mut self, keys: KeyState, dt: i64, phases: &Vec<i64>)
        requires
            world_wf(old(self)@),
            0 <= dt <= DT_LIMIT,
            phases_ok(phases@, old(self)@.len() as int),
        ensures
            final(self)@ == frame_spec(old(self)@, keys, dt as int, phases@),
            world_wf(final(self)@),
    {
        self.seek_rule();
        self.input_rule(keys);
        self.integration_rule(dt, phases);
        self.depth_rule();
        self.camera_rule();
    }
}

} // verus!
