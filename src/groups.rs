use vstd::prelude::*;

verus! {

/// Membership bit of static world geometry (platforms).
pub const WORLD_GROUP: u16 = 0b1000_0000_0000_0000;

/// Membership bit of the player.
pub const PLAYER_GROUP: u16 = 0b0100_0000_0000_0000;

/// Membership bit of patrolling creatures.
pub const CREATURE_GROUP: u16 = 0b0010_0000_0000_0000;

/// Membership bit of transient attack hitboxes.
pub const ATTACK_GROUP: u16 = 0b0001_0000_0000_0000;

/// Filter that accepts every group.
pub const ALL_GROUPS: u16 = 0xffff;

/// The closed set of entity classes that take part in collisions.
#[derive(Clone, Copy, Debug, PartialEq, Eq, Structural)]
pub enum EntityClass {
    World,
    Player,
    Creature,
    Attack,
}

/// A collider's group membership bits and the groups it accepts.
#[derive(Clone, Copy, Debug, PartialEq, Eq, Structural)]
pub struct CollisionGroups {
    pub memberships: u16,
    pub filter: u16,
}

/// Two colliders may touch only when each one's membership meets the other's filter.
pub open spec fn interacts(a: CollisionGroups, b: CollisionGroups) -> bool {
    (a.memberships & b.filter) != 0 && (b.memberships & a.filter) != 0
}

/// The membership bit of a class.
pub open spec fn class_bit(class: EntityClass) -> u16 {
    match class {
        EntityClass::World => WORLD_GROUP,
        EntityClass::Player => PLAYER_GROUP,
        EntityClass::Creature => CREATURE_GROUP,
        EntityClass::Attack => ATTACK_GROUP,
    }
}

/// Membership bit of a class.
pub fn class_group(class: EntityClass) -> (r: u16)
    ensures
        r == class_bit(class),
{
    match class {
        EntityClass::World => WORLD_GROUP,
        EntityClass::Player => PLAYER_GROUP,
        EntityClass::Creature => CREATURE_GROUP,
        EntityClass::Attack => ATTACK_GROUP,
    }
}

/// Groups of a solid body of the given class: its own bit, accepting everything.
pub fn body_groups(class: EntityClass) -> (r: CollisionGroups)
    ensures
        r.memberships == class_bit(class),
        r.filter == ALL_GROUPS,
{
    CollisionGroups { memberships: class_group(class), filter: ALL_GROUPS }
}

/// Groups of an attack hitbox spawned by an owner with the given groups: the
/// attack bit, accepting every group except the owner's.
pub fn attack_groups(owner: CollisionGroups) -> (r: CollisionGroups)
    ensures
        r.memberships == ATTACK_GROUP,
        r.filter == ALL_GROUPS & !owner.memberships,
        r.filter & owner.memberships == 0,
{
    let filter: u16 = ALL_GROUPS & !owner.memberships;
    let m: u16 = owner.memberships;
    assert(filter & m == 0) by (bit_vector)
        requires
            filter == 0xffffu16 & !m,
    ;
    CollisionGroups { memberships: ATTACK_GROUP, filter }
}

/// The classes occupy pairwise distinct single bits.
pub proof fn lemma_class_bits_disjoint(a: EntityClass, b: EntityClass)
    ensures
        a != b ==> class_bit(a) & class_bit(b) == 0,
        class_bit(a) & class_bit(a) == class_bit(a),
        class_bit(a) != 0,
{
    assert({
        &&& 0x8000u16 & 0x4000u16 == 0 && 0x8000u16 & 0x2000u16 == 0 && 0x8000u16 & 0x1000u16 == 0
        &&& 0x4000u16 & 0x8000u16 == 0 && 0x4000u16 & 0x2000u16 == 0 && 0x4000u16 & 0x1000u16 == 0
        &&& 0x2000u16 & 0x8000u16 == 0 && 0x2000u16 & 0x4000u16 == 0 && 0x2000u16 & 0x1000u16 == 0
        &&& 0x1000u16 & 0x8000u16 == 0 && 0x1000u16 & 0x4000u16 == 0 && 0x1000u16 & 0x2000u16 == 0
        &&& 0x8000u16 & 0x8000u16 == 0x8000u16 && 0x4000u16 & 0x4000u16 == 0x4000u16
        &&& 0x2000u16 & 0x2000u16 == 0x2000u16 && 0x1000u16 & 0x1000u16 == 0x1000u16
    }) by (bit_vector);
}

} // verus!
