use blob_combat::combat::{do_punch, Attack, Creature, Hit, START_HEALTH};
use blob_combat::events::{ColliderEntry, ColliderId, EntityId, EventLists};
use blob_combat::lifecycle::{despawn_system, health_system, DespawnTimer};
use blob_combat::physics::Wide2;
use blob_combat::player::Facing;

fn ent(bits: u64) -> EntityId {
    EntityId { bits }
}

fn col(index: u32) -> ColliderId {
    ColliderId { index, generation: 0 }
}

fn lists_with(pairs: &[(u64, u64)], owners: &[u64]) -> EventLists {
    let mut table = Vec::new();
    for &o in owners {
        table.push(ColliderEntry { collider: col(o as u32), entity: ent(o) });
    }
    let mut lists = EventLists::new();
    for &o in owners {
        lists.track(ent(o));
    }
    let events = pairs.iter().map(|&(a, b)| (col(a as u32), col(b as u32))).collect();
    lists.harvest(&table, &events);
    lists
}

#[test]
fn one_strike_takes_one_health_point() {
    let mut creatures = vec![Creature { entity: ent(1), health: START_HEALTH }];
    let lists = lists_with(&[(7, 1)], &[1, 7]);
    let attacks = vec![Attack { entity: ent(7), facing: Facing::Right }];
    let out = do_punch(&attacks, &lists, &mut creatures);
    assert_eq!(creatures[0].health, 9);
    assert_eq!(out.hits, vec![Hit {
        attack: ent(7),
        target: ent(1),
        impulse: Wide2 { x: 50_000_000, y: 200_000_000 },
        health: 9,
        intensity: 900,
    }]);
    assert_eq!(out.consumed, vec![ent(7)]);
}

#[test]
fn consumed_attack_is_removed_and_health_settles() {
    // the frame's lifecycle pass removes the consumed attack; nothing falls yet
    let mut creatures = vec![Creature { entity: ent(1), health: 10 }];
    let lists = lists_with(&[(7, 1)], &[1, 7]);
    let attacks = vec![Attack { entity: ent(7), facing: Facing::Left }];
    let out = do_punch(&attacks, &lists, &mut creatures);
    let mut live: Vec<EntityId> = vec![ent(1), ent(7)];
    live.retain(|e| !out.consumed.contains(e));
    assert_eq!(live, vec![ent(1)]);
    assert_eq!(out.hits[0].impulse, Wide2 { x: -50_000_000, y: 200_000_000 });
    assert_eq!(out.hits[0].intensity as f64 / 1000.0, 0.9);
    assert!(health_system(&creatures).is_empty());
}

#[test]
fn attack_without_overlap_survives() {
    let mut creatures = vec![Creature { entity: ent(1), health: 10 }];
    let lists = lists_with(&[], &[1, 7]);
    let attacks = vec![Attack { entity: ent(7), facing: Facing::Right }];
    let out = do_punch(&attacks, &lists, &mut creatures);
    assert!(out.hits.is_empty());
    assert!(out.consumed.is_empty());
    assert_eq!(creatures[0].health, 10);
}

#[test]
fn one_attack_strikes_every_overlapped_creature() {
    let mut creatures = vec![
        Creature { entity: ent(1), health: 10 },
        Creature { entity: ent(2), health: 3 },
        Creature { entity: ent(3), health: 10 },
    ];
    // the attack also overlaps a non-creature entity 5
    let lists = lists_with(&[(7, 1), (5, 7), (2, 7)], &[1, 2, 3, 5, 7]);
    let attacks = vec![Attack { entity: ent(7), facing: Facing::Right }];
    let out = do_punch(&attacks, &lists, &mut creatures);
    assert_eq!(out.hits.len(), 2);
    assert_eq!((out.hits[0].target, out.hits[0].health), (ent(1), 9));
    assert_eq!((out.hits[1].target, out.hits[1].health, out.hits[1].intensity), (ent(2), 2, 200));
    assert_eq!(creatures.iter().map(|c| c.health).collect::<Vec<_>>(), vec![9, 2, 10]);
    assert_eq!(out.consumed, vec![ent(7)]);
}

#[test]
fn two_attacks_on_one_creature_take_two_points() {
    let mut creatures = vec![Creature { entity: ent(1), health: 1 }];
    let lists = lists_with(&[(7, 1), (8, 1)], &[1, 7, 8]);
    let attacks = vec![
        Attack { entity: ent(7), facing: Facing::Right },
        Attack { entity: ent(8), facing: Facing::Left },
    ];
    let out = do_punch(&attacks, &lists, &mut creatures);
    assert_eq!(out.hits.iter().map(|h| h.health).collect::<Vec<_>>(), vec![0, -1]);
    assert_eq!(out.hits[1].intensity, -100);
    assert_eq!(creatures[0].health, -1);
    assert_eq!(out.consumed, vec![ent(7), ent(8)]);
    assert_eq!(health_system(&creatures), vec![ent(1)]);
}

#[test]
fn health_stops_at_the_type_minimum() {
    let mut creatures = vec![Creature { entity: ent(1), health: i32::MIN }];
    let lists = lists_with(&[(7, 1)], &[1, 7]);
    let attacks = vec![Attack { entity: ent(7), facing: Facing::Right }];
    let out = do_punch(&attacks, &lists, &mut creatures);
    assert_eq!(creatures[0].health, i32::MIN);
    assert_eq!(out.hits[0].intensity, i32::MIN as i64 * 100);
}

#[test]
fn health_system_picks_creatures_at_or_below_zero() {
    let creatures = vec![
        Creature { entity: ent(1), health: 1 },
        Creature { entity: ent(2), health: 0 },
        Creature { entity: ent(3), health: -4 },
    ];
    assert_eq!(health_system(&creatures), vec![ent(2), ent(3)]);
    assert!(health_system(&Vec::new()).is_empty());
}

#[test]
fn timer_finishes_once() {
    let mut t = DespawnTimer::after(100_000);
    assert!(!t.tick(60_000));
    assert_eq!(t.elapsed_us, 60_000);
    assert!(t.tick(60_000));
    assert_eq!(t.elapsed_us, 100_000);
    assert!(t.finished);
    assert!(!t.tick(60_000));
    assert_eq!(t.elapsed_us, 100_000);
}

#[test]
fn timer_edges() {
    let mut zero = DespawnTimer::after(0);
    assert!(zero.tick(0));
    let mut exact = DespawnTimer::after(100_000);
    assert!(exact.tick(100_000));
    let mut huge = DespawnTimer::after(u64::MAX);
    assert!(!huge.tick(u64::MAX - 1));
    assert!(huge.tick(u64::MAX));
}

#[test]
fn despawn_system_lists_timers_that_run_out() {
    let mut timers = vec![
        (ent(1), DespawnTimer::after(100_000)),
        (ent(2), DespawnTimer::after(20_000)),
        (ent(3), DespawnTimer::after(10_000)),
    ];
    timers[2].1.tick(10_000);
    let gone = despawn_system(&mut timers, 30_000);
    assert_eq!(gone, vec![ent(2)]);
    assert_eq!(timers[0].1.elapsed_us, 30_000);
    assert!(timers[1].1.finished);
    let gone = despawn_system(&mut timers, 70_000);
    assert_eq!(gone, vec![ent(1)]);
}
