use blob_combat::groups::EntityClass;
use blob_combat::layout::{gen_world, Placement};

#[test]
fn layout_has_a_creature_on_every_platform() {
    let placements = gen_world();
    assert_eq!(placements.len(), 32);
    assert_eq!(
        placements[0],
        Placement { class: EntityClass::World, x: -1200, y: -200, w: 200, h: 10 }
    );
    assert_eq!(
        placements[1],
        Placement { class: EntityClass::Creature, x: -1200, y: -195, w: 50, h: 50 }
    );
    // cell (gx, gy) = (-2, -1)
    assert_eq!((placements[2].x, placements[2].y), (-1000, -100));
    // cell (gx, gy) = (1, 1)
    assert_eq!(
        placements[31],
        Placement { class: EntityClass::Creature, x: 600, y: 105, w: 50, h: 50 }
    );
    for pair in placements.chunks(2) {
        assert_eq!(pair[0].class, EntityClass::World);
        assert_eq!(pair[1].class, EntityClass::Creature);
        assert_eq!(pair[0].x, pair[1].x);
        assert_eq!(pair[0].y + 5, pair[1].y);
    }
}
