use crate::events::{list_of, EntityId, EventLists};
use crate::physics::Wide2;
use crate::player::Facing;
use vstd::arithmetic::div_mod::lemma_div_multiples_vanish;
use vstd::prelude::*;

verus! {

/// Health of a freshly spawned creature.
pub const START_HEALTH: i32 = 10;

/// Visual intensity of a creature at full health, in thousandths.
pub const FULL_INTENSITY: i64 = 1_000;

/// Intensity lost per health point: full intensity over the starting health.
pub const INTENSITY_PER_HEALTH: i64 = 100;

/// Horizontal part of an attack's knockback, signed by the attack's facing.
pub const KNOCKBACK_X: i128 = 50_000_000;

/// Vertical part of an attack's knockback: always upward.
pub const KNOCKBACK_Y: i128 = 200_000_000;

/// A creature that attacks can strike, with its health.
#[derive(Clone, Copy, Debug, PartialEq, Eq, Structural)]
pub struct Creature {
    pub entity: EntityId,
    pub health: i32,
}

/// A live attack hitbox and the direction it was fired in.
#[derive(Clone, Copy, Debug, PartialEq, Eq, Structural)]
pub struct Attack {
    pub entity: EntityId,
    pub facing: Facing,
}

/// One resolved strike: the knockback for the target's body, and the
/// target's health and visual intensity right after it.
#[derive(Clone, Copy, Debug, PartialEq, Eq, Structural)]
pub struct Hit {
    pub attack: EntityId,
    pub target: EntityId,
    pub impulse: Wide2,
    pub health: i32,
    pub intensity: i64,
}

/// The strikes of one frame, and the attacks they consumed.
pub struct PunchOutcome {
    pub hits: Vec<Hit>,
    pub consumed: Vec<EntityId>,
}

/// No entity appears twice among the creatures.
pub open spec fn creatures_distinct(cs: Seq<Creature>) -> bool {
    forall|i: int, j: int|
        0 <= i < cs.len() && 0 <= j < cs.len() && i != j ==> (#[trigger] cs[i]).entity != (
        #[trigger] cs[j]).entity
}

/// `e` is one of the creatures.
pub open spec fn is_creature(cs: Seq<Creature>, e: EntityId) -> bool {
    exists|i: int| 0 <= i < cs.len() && (#[trigger] cs[i]).entity == e
}

/// The health of creature `e` (last row wins).
pub open spec fn health_of(cs: Seq<Creature>, e: EntityId) -> int
    decreases cs.len(),
{
    if cs.len() == 0 {
        0
    } else if cs.last().entity == e {
        cs.last().health as int
    } else {
        health_of(cs.drop_last(), e)
    }
}

/// Health after `k` strikes: one point each, held at the type's minimum.
pub open spec fn worn(h: int, k: int) -> int {
    if h - k < i32::MIN {
        i32::MIN as int
    } else {
        h - k
    }
}

/// Visual intensity for a health value: health over starting health, in thousandths.
pub open spec fn intensity_of(h: int) -> int {
    h * FULL_INTENSITY / START_HEALTH as int
}

/// Knockback of an attack fired in direction `f`.
pub open spec fn knockback(f: Facing) -> Wide2 {
    Wide2 {
        x: if f == Facing::Right {
            KNOCKBACK_X
        } else {
            (-KNOCKBACK_X) as i128
        },
        y: KNOCKBACK_Y,
    }
}

/// Strikes of attack `a` on the creatures among `partners`, in order.
pub open spec fn attack_strikes(a: Attack, partners: Seq<EntityId>, cs: Seq<Creature>) -> Seq<
    (Attack, EntityId),
>
    decreases partners.len(),
{
    if partners.len() == 0 {
        Seq::<(Attack, EntityId)>::empty()
    } else {
        let rest = attack_strikes(a, partners.drop_last(), cs);
        if is_creature(cs, partners.last()) {
            rest.push((a, partners.last()))
        } else {
            rest
        }
    }
}

/// All strikes of a frame: for each attack in order, its strikes on the
/// creatures in its intersection list.
pub open spec fn strikes(
    attacks: Seq<Attack>,
    lists: Seq<(EntityId, Seq<EntityId>)>,
    cs: Seq<Creature>,
) -> Seq<(Attack, EntityId)>
    decreases attacks.len(),
{
    if attacks.len() == 0 {
        Seq::<(Attack, EntityId)>::empty()
    } else {
        strikes(attacks.drop_last(), lists, cs) + attack_strikes(
            attacks.last(),
            list_of(lists, attacks.last().entity),
            cs,
        )
    }
}

/// The attacks, in order, that strike at least one creature.
pub open spec fn consumed_attacks(
    attacks: Seq<Attack>,
    lists: Seq<(EntityId, Seq<EntityId>)>,
    cs: Seq<Creature>,
) -> Seq<EntityId>
    decreases attacks.len(),
{
    if attacks.len() == 0 {
        Seq::<EntityId>::empty()
    } else {
        let rest = consumed_attacks(attacks.drop_last(), lists, cs);
        if attack_strikes(attacks.last(), list_of(lists, attacks.last().entity), cs).len() > 0 {
            rest.push(attacks.last().entity)
        } else {
            rest
        }
    }
}

/// How many of the strikes land on `e`.
pub open spec fn strikes_on(s: Seq<(Attack, EntityId)>, e: EntityId) -> int
    decreases s.len(),
{
    if s.len() == 0 {
        0
    } else {
        strikes_on(s.drop_last(), e) + if s.last().1 == e {
            1int
        } else {
            0int
        }
    }
}

/// The record of strike `r` among `s`, on creatures whose health was `cs` before the frame.
pub open spec fn hit_record(s: Seq<(Attack, EntityId)>, r: int, cs: Seq<Creature>) -> Hit {
    let target = s[r].1;
    let h = worn(health_of(cs, target), strikes_on(s.take(r + 1), target));
    Hit {
        attack: s[r].0.entity,
        target,
        impulse: knockback(s[r].0.facing),
        health: h as i32,
        intensity: intensity_of(h) as i64,
    }
}

proof fn lemma_strikes_on_nonneg(s: Seq<(Attack, EntityId)>, e: EntityId)
    ensures
        strikes_on(s, e) >= 0,
    decreases s.len(),
{
    if s.len() > 0 {
        lemma_strikes_on_nonneg(s.drop_last(), e);
    }
}

proof fn lemma_health_of_distinct(cs: Seq<Creature>, i: int)
    requires
        creatures_distinct(cs),
        0 <= i < cs.len(),
    ensures
        health_of(cs, cs[i].entity) == cs[i].health,
    decreases cs.len(),
{
    if i < cs.len() - 1 {
        let d = cs.drop_last();
        assert(cs[cs.len() - 1].entity != cs[i].entity);
        assert(d[i] == cs[i]);
        assert(creatures_distinct(d)) by {
            assert forall|a: int, b: int|
                0 <= a < d.len() && 0 <= b < d.len() && a != b implies (#[trigger] d[a]).entity
                != (#[trigger] d[b]).entity by {
                assert(d[a] == cs[a] && d[b] == cs[b]);
            }
        }
        lemma_health_of_distinct(d, i);
    }
}

/// Position of creature `e`, if it is one.
fn find_creature(creatures: &Vec<Creature>, e: EntityId) -> (r: Option<usize>)
    ensures
        r matches Some(i) ==> i < creatures@.len() && creatures@[i as int].entity == e,
        r is None ==> !is_creature(creatures@, e),
{
    let mut i: usize = 0;
    while i < creatures.len()
        invariant
            i <= creatures@.len(),
            forall|j: int| 0 <= j < i ==> (#[trigger] creatures@[j]).entity != e,
        decreases creatures@.len() - i,
    {
        if creatures[i].entity == e {
            return Some(i);
        }
        i = i + 1;
    }
    None
}

/// Combat resolution for one frame. Each attack strikes every creature in
/// its intersection list, in order: the creature gets a knockback along the
/// attack's facing and upward, loses one health point, and its intensity
/// follows its remaining health. Every attack that struck is consumed.
pub fn do_punch(attacks: &Vec<Attack>, intersections: &EventLists, creatures: &mut Vec<Creature>) -> (r:
    PunchOutcome)
    requires
        creatures_distinct(old(creatures)@),
    ensures
        ({
            let s = strikes(attacks@, intersections@, old(creatures)@);
            &&& final(creatures)@.len() == old(creatures)@.len()
            &&& forall|i: int|
                0 <= i < old(creatures)@.len() ==> (#[trigger] final(creatures)@[i]) == (Creature {
                    entity: old(creatures)@[i].entity,
                    health: worn(
                        old(creatures)@[i].health as int,
                        strikes_on(s, old(creatures)@[i].entity),
                    ) as i32,
                })
            &&& r.hits@.len() == s.len()
            &&& forall|k: int|
                0 <= k < s.len() ==> (#[trigger] r.hits@[k]) == hit_record(s, k, old(creatures)@)
            &&& r.consumed@ == consumed_attacks(attacks@, intersections@, old(creatures)@)
        }),
{
    let ghost cs0 = creatures@;
    let ghost lists = intersections@;
    let mut hits: Vec<Hit> = Vec::new();
    let mut consumed: Vec<EntityId> = Vec::new();
    let mut k: usize = 0;
    assert(attacks@.take(0).len() == 0);
    while k < attacks.len()
        invariant
            k <= attacks@.len(),
            intersections@ == lists,
            creatures_distinct(cs0),
            creatures@.len() == cs0.len(),
            ({
                let s = strikes(attacks@.take(k as int), lists, cs0);
                &&& forall|i: int|
                    0 <= i < cs0.len() ==> (#[trigger] creatures@[i]) == (Creature {
                        entity: cs0[i].entity,
                        health: worn(cs0[i].health as int, strikes_on(s, cs0[i].entity)) as i32,
                    })
                &&& hits@.len() == s.len()
                &&& forall|q: int| 0 <= q < s.len() ==> (#[trigger] hits@[q]) == hit_record(s, q, cs0)
            }),
            consumed@ == consumed_attacks(attacks@.take(k as int), lists, cs0),
        decreases attacks@.len() - k,
    {
        let a = attacks[k];
        let partners = intersections.partners_of(a.entity);
        let ghost base = strikes(attacks@.take(k as int), lists, cs0);
        let mut struck = false;
        let mut p: usize = 0;
        assert(partners@.take(0) =~= Seq::<EntityId>::empty());
        assert(base + attack_strikes(a, partners@.take(0), cs0) =~= base);
        while p < partners.len()
            invariant
                p <= partners@.len(),
                creatures_distinct(cs0),
                creatures@.len() == cs0.len(),
                ({
                    let s = base + attack_strikes(a, partners@.take(p as int), cs0);
                    &&& forall|i: int|
                        0 <= i < cs0.len() ==> (#[trigger] creatures@[i]) == (Creature {
                            entity: cs0[i].entity,
                            health: worn(cs0[i].health as int, strikes_on(s, cs0[i].entity)) as i32,
                        })
                    &&& hits@.len() == s.len()
                    &&& forall|q: int|
                        0 <= q < s.len() ==> (#[trigger] hits@[q]) == hit_record(s, q, cs0)
                }),
                struck == (attack_strikes(a, partners@.take(p as int), cs0).len() > 0),
            decreases partners@.len() - p,
        {
            let t = partners[p];
            let ghost before = base + attack_strikes(a, partners@.take(p as int), cs0);
            assert(partners@.take(p + 1).drop_last() =~= partners@.take(p as int));
            assert(partners@.take(p + 1).last() == t);
            match find_creature(creatures, t) {
                Some(i) => {
                    let ghost after = before.push((a, t));
                    assert(is_creature(cs0, t)) by {
                        assert(cs0[i as int].entity == t);
                    }
                    assert(base + attack_strikes(a, partners@.take(p + 1), cs0) =~= after);
                    let h = creatures[i].health;
                    let nh: i32 = if h > i32::MIN {
                        h - 1
                    } else {
                        h
                    };
                    proof {
                        lemma_health_of_distinct(cs0, i as int);
                        lemma_strikes_on_nonneg(before, t);
                        assert(creatures@[i as int] == (Creature {
                            entity: cs0[i as int].entity,
                            health: worn(cs0[i as int].health as int, strikes_on(before, t)) as i32,
                        }));
                        assert(after.take(after.len() as int) =~= after);
                        assert(after.drop_last() =~= before);
                        assert(nh == worn(cs0[i as int].health as int, strikes_on(after, t)));
                    }
                    let intensity: i64 = (nh as i64) * INTENSITY_PER_HEALTH;
                    proof {
                        lemma_div_multiples_vanish(nh as int * INTENSITY_PER_HEALTH, 10);
                        assert(nh as int * FULL_INTENSITY == 10 * (nh as int * INTENSITY_PER_HEALTH));
                    }
                    let impulse = match a.facing {
                        Facing::Right => Wide2 { x: KNOCKBACK_X, y: KNOCKBACK_Y },
                        Facing::Left => Wide2 { x: -KNOCKBACK_X, y: KNOCKBACK_Y },
                    };
                    creatures.set(i, Creature { entity: t, health: nh });
                    hits.push(Hit { attack: a.entity, target: t, impulse, health: nh, intensity });
                    struck = true;
                    proof {
                        assert(hits@[before.len() as int] == hit_record(after, before.len() as int, cs0));
                        assert forall|q: int| 0 <= q < before.len() implies #[trigger] hit_record(
                            after,
                            q,
                            cs0,
                        ) == hit_record(before, q, cs0) by {
                            assert(after.take(q + 1) =~= before.take(q + 1));
                        }
                        assert forall|j: int| 0 <= j < cs0.len() implies strikes_on(
                            after,
                            #[trigger] cs0[j].entity,
                        ) == strikes_on(before, cs0[j].entity) + if cs0[j].entity == t {
                            1int
                        } else {
                            0int
                        } by {}
                        assert forall|j: int| 0 <= j < cs0.len() && j != i implies cs0[j].entity
                            != t by {
                            assert(cs0[j] != cs0[i as int] || j == i);
                        }
                    }
                },
                None => {
                    assert(!is_creature(cs0, t)) by {
                        if is_creature(cs0, t) {
                            let j = choose|j: int| 0 <= j < cs0.len() && (#[trigger] cs0[j]).entity == t;
                            assert(creatures@[j].entity == t);
                        }
                    }
                    assert(base + attack_strikes(a, partners@.take(p + 1), cs0) =~= before);
                },
            }
            p = p + 1;
        }
        proof {
            assert(partners@.take(partners@.len() as int) =~= partners@);
            assert(attacks@.take(k + 1).drop_last() =~= attacks@.take(k as int));
            assert(attacks@.take(k + 1).last() == a);
        }
        if struck {
            consumed.push(a.entity);
        }
        k = k + 1;
    }
    assert(attacks@.take(attacks@.len() as int) =~= attacks@);
    PunchOutcome { hits, consumed }
}

} // verus!
