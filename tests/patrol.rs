use blob_combat::events::{ColliderEntry, ColliderId, EntityId};
use blob_combat::patrol::{blob_move, supporting_platforms, PatrolHop, Platform};
use blob_combat::physics::{Aabb, Fixed2, Wide2};

fn bx(min_x: i64, min_y: i64, max_x: i64, max_y: i64) -> Aabb {
    Aabb { min: Fixed2 { x: min_x, y: min_y }, max: Fixed2 { x: max_x, y: max_y } }
}

fn col(index: u32) -> ColliderId {
    ColliderId { index, generation: 1 }
}

fn ent(bits: u64) -> EntityId {
    EntityId { bits }
}

fn hop(right: bool) -> PatrolHop {
    PatrolHop {
        going_right: right,
        impulse: Wide2 { x: if right { 30_000_000 } else { -30_000_000 }, y: 100_000_000 },
    }
}

#[test]
fn turns_left_at_the_right_edge() {
    let mut heading = true;
    let support = vec![bx(-5_000, 0, 5_000, 500)];
    let r = blob_move(&mut heading, bx(3_800, 500, 5_050, 3_000), 0, &support);
    assert_eq!(r, Some(hop(false)));
    assert!(!heading);
    let r = blob_move(&mut heading, bx(3_800, 500, 5_050, 3_000), 0, &support);
    assert_eq!(r, Some(hop(false)));
    assert!(!heading);
}

#[test]
fn turns_at_exactly_the_edge() {
    let mut heading = true;
    let support = vec![bx(-5_000, 0, 5_000, 500)];
    assert_eq!(blob_move(&mut heading, bx(2_500, 500, 5_000, 3_000), 10, &support), Some(hop(false)));
    let mut heading = false;
    assert_eq!(blob_move(&mut heading, bx(-5_000, 500, -2_500, 3_000), -10, &support), Some(hop(true)));
    assert!(heading);
}

#[test]
fn keeps_heading_inside_the_platform() {
    let support = vec![bx(-5_000, 0, 5_000, 500)];
    let mut heading = true;
    assert_eq!(blob_move(&mut heading, bx(0, 500, 2_500, 3_000), 0, &support), Some(hop(true)));
    assert!(heading);
    let mut heading = false;
    assert_eq!(blob_move(&mut heading, bx(0, 500, 2_500, 3_000), 0, &support), Some(hop(false)));
    assert!(!heading);
}

#[test]
fn no_hop_when_airborne_or_ambiguous() {
    let one = vec![bx(-5_000, 0, 5_000, 500)];
    let two = vec![bx(-5_000, 0, 5_000, 500), bx(5_000, 0, 9_000, 500)];
    let mut heading = true;
    assert_eq!(blob_move(&mut heading, bx(4_000, 500, 6_000, 3_000), 11, &one), None);
    assert_eq!(blob_move(&mut heading, bx(4_000, 500, 6_000, 3_000), -11, &one), None);
    assert_eq!(blob_move(&mut heading, bx(4_000, 500, 6_000, 3_000), 0, &two), None);
    assert_eq!(blob_move(&mut heading, bx(4_000, 500, 6_000, 3_000), 0, &Vec::new()), None);
    assert!(heading);
}

#[test]
fn supports_are_the_platforms_touched() {
    let me = col(1);
    let table = vec![
        ColliderEntry { collider: col(1), entity: ent(100) },
        ColliderEntry { collider: col(2), entity: ent(200) },
        ColliderEntry { collider: col(3), entity: ent(300) },
        ColliderEntry { collider: col(4), entity: ent(400) },
    ];
    let platforms = vec![
        Platform { entity: ent(200), bounds: bx(0, 0, 10, 1) },
        Platform { entity: ent(400), bounds: bx(20, 0, 30, 1) },
    ];
    // a creature, a platform seen from both sides of the pair, an unknown collider
    let contacts = vec![(col(3), me), (me, col(2)), (col(9), me), (col(4), me)];
    let r = supporting_platforms(me, &contacts, &table, &platforms);
    assert_eq!(r, vec![bx(0, 0, 10, 1), bx(20, 0, 30, 1)]);
    let r = supporting_platforms(me, &vec![(me, col(2))], &table, &platforms);
    assert_eq!(r, vec![bx(0, 0, 10, 1)]);
    assert!(supporting_platforms(me, &Vec::new(), &table, &platforms).is_empty());
}
