use crate::events::{other, resolve, resolve_collider, ColliderEntry, ColliderId, EntityId};
use crate::physics::{Aabb, Wide2};
use vstd::prelude::*;

verus! {

/// A platform that creatures can stand on, with its bounding box.
#[derive(Clone, Copy, Debug, PartialEq, Eq, Structural)]
pub struct Platform {
    pub entity: EntityId,
    pub bounds: Aabb,
}

/// What a patrolling creature does this frame: its new heading, and the hop
/// impulse to apply.
#[derive(Clone, Copy, Debug, PartialEq, Eq, Structural)]
pub struct PatrolHop {
    pub going_right: bool,
    pub impulse: Wide2,
}

/// Largest vertical speed at which a creature counts as resting.
pub const REST_SPEED: i64 = 10;

/// Horizontal part of a patrol hop.
pub const HOP_X: i128 = 30_000_000;

/// Vertical part of a patrol hop.
pub const HOP_Y: i128 = 100_000_000;

/// The bounding box of the platform owned by `e`, if `e` is a platform; a
/// later row overrides an earlier one.
pub open spec fn platform_bounds(platforms: Seq<Platform>, e: EntityId) -> Option<Aabb>
    decreases platforms.len(),
{
    if platforms.len() == 0 {
        None
    } else if platforms.last().entity == e {
        Some(platforms.last().bounds)
    } else {
        platform_bounds(platforms.drop_last(), e)
    }
}

/// The collider across a contact pair from `me`.
pub open spec fn across(me: ColliderId, pair: (ColliderId, ColliderId)) -> ColliderId {
    if me == pair.0 {
        pair.1
    } else {
        pair.0
    }
}

/// Bounding boxes of the platforms among the partners of `me`'s contacts, in order.
pub open spec fn touched_platforms(
    me: ColliderId,
    contacts: Seq<(ColliderId, ColliderId)>,
    table: Seq<ColliderEntry>,
    platforms: Seq<Platform>,
) -> Seq<Aabb>
    decreases contacts.len(),
{
    if contacts.len() == 0 {
        Seq::<Aabb>::empty()
    } else {
        let rest = touched_platforms(me, contacts.drop_last(), table, platforms);
        match resolve(table, across(me, contacts.last())) {
            Some(e) => match platform_bounds(platforms, e) {
                Some(b) => rest.push(b),
                None => rest,
            },
            None => rest,
        }
    }
}

/// The heading after the edge test: heading right, turn once the creature's
/// right side reaches the platform's right side; heading left, turn once its
/// left side reaches the platform's left side.
pub open spec fn heading_after(going_right: bool, own: Aabb, support: Aabb) -> bool {
    if going_right {
        own.max.x < support.max.x
    } else {
        !(own.min.x > support.min.x)
    }
}

/// The hop of a creature resting on `support`.
pub open spec fn patrol_hop(going_right: bool, own: Aabb, support: Aabb) -> PatrolHop {
    let right = heading_after(going_right, own, support);
    PatrolHop {
        going_right: right,
        impulse: Wide2 {
            x: if right {
                HOP_X
            } else {
                (-HOP_X) as i128
            },
            y: HOP_Y,
        },
    }
}

/// The patrol decision: a creature resting on exactly one platform, with
/// vertical speed within `REST_SPEED`, hops along its heading, turning at
/// the platform's edge; otherwise it does nothing.
pub open spec fn patrol_decision(
    going_right: bool,
    own: Aabb,
    vertical_speed: i64,
    supports: Seq<Aabb>,
) -> Option<PatrolHop> {
    if supports.len() == 1 && -REST_SPEED <= vertical_speed <= REST_SPEED {
        Some(patrol_hop(going_right, own, supports[0]))
    } else {
        None
    }
}

/// Bounding boxes of the platforms touched by collider `me`, given the
/// contact pairs the physics engine reports for it.
pub fn supporting_platforms(
    me: ColliderId,
    contacts: &Vec<(ColliderId, ColliderId)>,
    table: &Vec<ColliderEntry>,
    platforms: &Vec<Platform>,
) -> (r: Vec<Aabb>)
    requires
        forall|k: int|
            0 <= k < contacts@.len() ==> (#[trigger] contacts@[k]).0 == me || contacts@[k].1 == me,
    ensures
        r@ == touched_platforms(me, contacts@, table@, platforms@),
{
    let mut out: Vec<Aabb> = Vec::new();
    let mut k: usize = 0;
    while k < contacts.len()
        invariant
            k <= contacts@.len(),
            forall|j: int|
                0 <= j < contacts@.len() ==> (#[trigger] contacts@[j]).0 == me || contacts@[j].1
                    == me,
            out@ == touched_platforms(me, contacts@.subrange(0, k as int), table@, platforms@),
        decreases contacts@.len() - k,
    {
        let ghost prefix = contacts@.subrange(0, k + 1);
        assert(prefix.drop_last() =~= contacts@.subrange(0, k as int));
        assert(prefix.last() == contacts@[k as int]);
        let pair = contacts[k];
        let partner = other(me, pair);
        if let Some(e) = resolve_collider(table, partner) {
            if let Some(b) = find_platform(platforms, e) {
                out.push(b);
            }
        }
        k = k + 1;
    }
    assert(contacts@.subrange(0, contacts@.len() as int) =~= contacts@);
    out
}

/// The bounding box of platform entity `e`, if it is one.
fn find_platform(platforms: &Vec<Platform>, e: EntityId) -> (r: Option<Aabb>)
    ensures
        r == platform_bounds(platforms@, e),
{
    let mut found: Option<Aabb> = None;
    let mut i: usize = 0;
    while i < platforms.len()
        invariant
            i <= platforms@.len(),
            found == platform_bounds(platforms@.subrange(0, i as int), e),
        decreases platforms@.len() - i,
    {
        assert(platforms@.subrange(0, i + 1).drop_last() =~= platforms@.subrange(0, i as int));
        if platforms[i].entity == e {
            found = Some(platforms[i].bounds);
        }
        i = i + 1;
    }
    assert(platforms@.subrange(0, platforms@.len() as int) =~= platforms@);
    found
}

/// Patrol AI for one creature and frame. `going_right` is its stored
/// heading, updated when it hops; the result is the hop to apply, if any.
pub fn blob_move(
    going_right: &mut bool,
    own: Aabb,
    vertical_speed: i64,
    supports: &Vec<Aabb>,
) -> (r: Option<PatrolHop>)
    ensures
        r == patrol_decision(*old(going_right), own, vertical_speed, supports@),
        *final(going_right) == match r {
            Some(hop) => hop.going_right,
            None => *old(going_right),
        },
{
    if supports.len() != 1 || vertical_speed < -REST_SPEED || vertical_speed > REST_SPEED {
        return None;
    }
    let support = supports[0];
    let right = if *going_right {
        own.max.x < support.max.x
    } else {
        !(own.min.x > support.min.x)
    };
    *going_right = right;
    Some(PatrolHop { going_right: right, impulse: Wide2 { x: if right { HOP_X } else { -HOP_X }, y: HOP_Y } })
}

/// Patrol reversal: a resting creature heading right whose right side has
/// reached the right side of its single supporting platform turns left and
/// hops with a leftward, upward impulse.
pub proof fn lemma_patrol_turns_at_right_edge(own: Aabb, support: Aabb, vertical_speed: i64)
    requires
        own.max.x >= support.max.x,
        -REST_SPEED <= vertical_speed <= REST_SPEED,
    ensures
        ({
            let d = patrol_decision(true, own, vertical_speed, seq![support]);
            &&& d is Some
            &&& !d->0.going_right
            &&& d->0.impulse.x < 0
            &&& d->0.impulse.y > 0
        }),
{
    assert(seq![support].len() == 1);
    assert(seq![support][0] == support);
}

/// The mirrored case: a resting creature heading left whose left side has
/// reached the left side of its single supporting platform turns right and
/// hops with a rightward, upward impulse.
pub proof fn lemma_patrol_turns_at_left_edge(own: Aabb, support: Aabb, vertical_speed: i64)
    requires
        own.min.x <= support.min.x,
        -REST_SPEED <= vertical_speed <= REST_SPEED,
    ensures
        ({
            let d = patrol_decision(false, own, vertical_speed, seq![support]);
            &&& d is Some
            &&& d->0.going_right
            &&& d->0.impulse.x > 0
            &&& d->0.impulse.y > 0
        }),
{
    assert(seq![support].len() == 1);
    assert(seq![support][0] == support);
}

} // verus!
