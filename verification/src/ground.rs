//! Ground detection: a probe ray is cast down from each entity and the
//! returned intersections decide whether the entity stands on ground.

use crate::math::VEC_LIMIT;
use crate::vector::v3_bounded;
use crate::vector::Vec3;
use crate::vector::V3;
use vstd::prelude::*;

verus! {

/// Per-entity ground state: whether the entity touches walkable ground,
/// and since when. `since` moves only on the not-grounded to grounded
/// transition, never while grounded stays true.
#[derive(Clone, Copy, Debug)]
pub struct Grounded {
    pub ground: bool,
    pub since: i64,
    pub distance_check: i64,
    /// Optional secondary collider to watch (weak reference, no ownership).
    pub watch_entity: Option<u64>,
}

impl Grounded {
    /// A fresh state: not grounded, probing `distance_check` units down.
    pub fn new(distance_check: i64, watch_entity: Option<u64>) -> (r: Grounded)
        ensures
            !r.ground,
            r.since == 0,
            r.distance_check == distance_check,
            r.watch_entity == watch_entity,
    {
        Grounded { ground: false, since: 0, distance_check, watch_entity }
    }
}

/// One intersection returned by the spatial index for a probe ray:
/// the entity that was hit, where, and its collider type tag if it has one.
#[derive(Clone, Copy, Debug)]
pub struct RayHit {
    pub entity: u64,
    pub point: Vec3,
    pub object_type: Option<u64>,
}

/// Squared distance between two points.
pub open spec fn dist_squared(a: V3, b: V3) -> int {
    (a.x - b.x) * (a.x - b.x) + (a.y - b.y) * (a.y - b.y) + (a.z - b.z) * (a.z - b.z)
}

/// A hit counts as ground when it is not the probing entity itself, lies
/// within the probe distance, and carries a collider type from the
/// allow-list.
pub open spec fn hit_qualifies(
    self_entity: u64,
    position: V3,
    distance_check: int,
    allow: Seq<u64>,
    hit: RayHit,
) -> bool {
    &&& hit.entity != self_entity
    &&& distance_check >= 0
    &&& dist_squared(position, hit.point@) <= distance_check * distance_check
    &&& match hit.object_type {
        Option::Some(t) => allow.contains(t),
        Option::None => false,
    }
}

/// The ground state after one probe: grounded exactly when some hit
/// qualifies, with the grounding time stamped on the transition.
pub open spec fn spec_ground_after(
    allow: Seq<u64>,
    self_entity: u64,
    position: V3,
    hits: Seq<RayHit>,
    g: Grounded,
    now: i64,
) -> Grounded {
    let on_ground = exists|i: int|
        0 <= i < hits.len() && hit_qualifies(
            self_entity,
            position,
            g.distance_check as int,
            allow,
            hits[i],
        );
    Grounded {
        ground: on_ground,
        since: if on_ground && !g.ground {
            now
        } else {
            g.since
        },
        distance_check: g.distance_check,
        watch_entity: g.watch_entity,
    }
}

/// One entity as the ground checker sees it: its identity, position,
/// ground state, and the probe intersections delivered for this tick.
pub struct GroundBody {
    pub entity: u64,
    pub position: Vec3,
    pub grounded: Grounded,
    pub hits: Vec<RayHit>,
}

/// True when every hit point lies within the coordinate bound.
pub open spec fn hits_bounded(hits: Seq<RayHit>) -> bool {
    forall|i: int| 0 <= i < hits.len() ==> v3_bounded((#[trigger] hits[i]).point@, VEC_LIMIT as int)
}

/// Decides, per tick and per entity, whether the entity is grounded.
pub struct GroundCheckerSystem {
    /// Collider type tags an entity may stand on.
    pub collider_types: Vec<u64>,
}

/// True when the vector of tags holds `t`.
fn contains_tag(tags: &Vec<u64>, t: u64) -> (r: bool)
    ensures
        r == tags@.contains(t),
{
    let mut idx: usize = 0;
    while idx < tags.len()
        invariant
            0 <= idx <= tags@.len(),
            forall|j: int| 0 <= j < idx ==> tags@[j] != t,
        decreases tags@.len() - idx,
    {
        if tags[idx] == t {
            assert(tags@[idx as int] == t);
            return true;
        }
        idx += 1;
    }
    assert(!tags@.contains(t));
    false
}

impl GroundCheckerSystem {
    /// A checker that accepts the given collider types as ground.
    pub fn new(collider_types: Vec<u64>) -> (r: GroundCheckerSystem)
        ensures
            r.collider_types@ == collider_types@,
    {
        GroundCheckerSystem { collider_types }
    }

    /// Probe one entity: set `ground` from this tick's hits and stamp
    /// `since` on a fresh grounding. Only the ground state is touched.
    pub fn ground_tick(&self, body: &mut GroundBody, now: i64)
        requires
            v3_bounded(old(body).position@, VEC_LIMIT as int),
            hits_bounded(old(body).hits@),
        ensures
            final(body).grounded == spec_ground_after(
                self.collider_types@,
                old(body).entity,
                old(body).position@,
                old(body).hits@,
                old(body).grounded,
                now,
            ),
            final(body).entity == old(body).entity,
            final(body).position == old(body).position,
            final(body).hits@ == old(body).hits@,
    {
        let ghost dc = body.grounded.distance_check as int;
        let mut on_ground = false;
        let mut idx: usize = 0;
        while idx < body.hits.len()
            invariant
                0 <= idx <= body.hits@.len(),
                v3_bounded(body.position@, VEC_LIMIT as int),
                hits_bounded(body.hits@),
                body.grounded.distance_check == dc,
                on_ground == exists|i: int|
                    0 <= i < idx && hit_qualifies(
                        body.entity,
                        body.position@,
                        dc,
                        self.collider_types@,
                        body.hits@[i],
                    ),
            decreases body.hits@.len() - idx,
        {
            let hit = body.hits[idx];
            if hit.entity != body.entity && body.grounded.distance_check >= 0 {
                let dx = (body.position.x as i128) - (hit.point.x as i128);
                let dy = (body.position.y as i128) - (hit.point.y as i128);
                let dz = (body.position.z as i128) - (hit.point.z as i128);
                proof {
                    crate::math::lemma_mul_bounds(
                        dx as int,
                        dx as int,
                        2 * VEC_LIMIT as int,
                        2 * VEC_LIMIT as int,
                    );
                    crate::math::lemma_mul_bounds(
                        dy as int,
                        dy as int,
                        2 * VEC_LIMIT as int,
                        2 * VEC_LIMIT as int,
                    );
                    crate::math::lemma_mul_bounds(
                        dz as int,
                        dz as int,
                        2 * VEC_LIMIT as int,
                        2 * VEC_LIMIT as int,
                    );
                    crate::math::lemma_mul_bounds(
                        body.grounded.distance_check as int,
                        body.grounded.distance_check as int,
                        i64::MAX as int,
                        i64::MAX as int,
                    );
                }
                let d2 = dx * dx + dy * dy + dz * dz;
                let dc2 = (body.grounded.distance_check as i128) * (
                body.grounded.distance_check as i128);
                if d2 <= dc2 {
                    match hit.object_type {
                        Option::Some(t) => {
                            if contains_tag(&self.collider_types, t) {
                                on_ground = true;
                                assert(hit_qualifies(
                                    body.entity,
                                    body.position@,
                                    dc,
                                    self.collider_types@,
                                    body.hits@[idx as int],
                                ));
                            }
                        },
                        Option::None => {},
                    }
                }
            }
            idx += 1;
        }
        if on_ground && !body.grounded.ground {
            body.grounded.since = now;
        }
        body.grounded.ground = on_ground;
    }

    /// Probe every entity in order. Each entity's ground state is updated
    /// independently from its own hits.
    pub fn run(&self, bodies: &mut Vec<GroundBody>, now: i64)
        requires
            forall|i: int|
                0 <= i < old(bodies)@.len() ==> v3_bounded(
                    (#[trigger] old(bodies)@[i]).position@,
                    VEC_LIMIT as int,
                ) && hits_bounded(old(bodies)@[i].hits@),
        ensures
            final(bodies)@.len() == old(bodies)@.len(),
            forall|i: int|
                0 <= i < old(bodies)@.len() ==> {
                    let b = #[trigger] old(bodies)@[i];
                    let a = final(bodies)@[i];
                    a.grounded == spec_ground_after(
                        self.collider_types@,
                        b.entity,
                        b.position@,
                        b.hits@,
                        b.grounded,
                        now,
                    ) && a.entity == b.entity && a.position == b.position && a.hits@ == b.hits@
                },
    {
        let ghost orig = bodies@;
        let mut idx: usize = 0;
        while idx < bodies.len()
            invariant
                0 <= idx <= orig.len(),
                bodies@.len() == orig.len(),
                forall|i: int|
                    0 <= i < orig.len() ==> v3_bounded(
                        (#[trigger] orig[i]).position@,
                        VEC_LIMIT as int,
                    ) && hits_bounded(orig[i].hits@),
                forall|i: int| idx <= i < orig.len() ==> bodies@[i] == #[trigger] orig[i],
                forall|i: int|
                    0 <= i < idx ==> {
                        let b = #[trigger] orig[i];
                        let a = bodies@[i];
                        a.grounded == spec_ground_after(
                            self.collider_types@,
                            b.entity,
                            b.position@,
                            b.hits@,
                            b.grounded,
                            now,
                        ) && a.entity == b.entity && a.position == b.position && a.hits@ == b.hits@
                    },
            decreases orig.len() - idx,
        {
            proof {
                assert(bodies@[idx as int] == orig[idx as int]);
                assert(v3_bounded(orig[idx as int].position@, VEC_LIMIT as int));
            }
            let body = &mut bodies[idx];
            self.ground_tick(body, now);
            idx += 1;
        }
    }
}

} // verus!
