use crate::groups::EntityClass;
use vstd::prelude::*;

verus! {

/// A box to place in the starting scene, in pixels: centre and size.
#[derive(Clone, Copy, Debug, PartialEq, Eq, Structural)]
pub struct Placement {
    pub class: EntityClass,
    pub x: i32,
    pub y: i32,
    pub w: i32,
    pub h: i32,
}

/// Cells on each side of the origin, in both directions.
pub const GRID_HALF: i32 = 2;

/// Platform width.
pub const PLATFORM_W: i32 = 200;

/// Platform height.
pub const PLATFORM_H: i32 = 10;

/// Vertical distance between platform rows.
pub const ROW_STEP: i32 = 100;

/// Side of a creature's square body.
pub const CREATURE_SIZE: i32 = 50;

/// Height of a creature's centre above its platform's centre.
pub const CREATURE_LIFT: i32 = 5;

/// The platform of grid cell `(gx, gy)`: rows are staggered by one
/// platform width per row.
pub open spec fn platform_at(gx: int, gy: int) -> Placement {
    Placement {
        class: EntityClass::World,
        x: (gx * 2 * PLATFORM_W + gy * PLATFORM_W) as i32,
        y: (gy * ROW_STEP) as i32,
        w: PLATFORM_W,
        h: PLATFORM_H,
    }
}

/// The creature that starts on the platform of cell `(gx, gy)`.
pub open spec fn creature_at(gx: int, gy: int) -> Placement {
    Placement {
        class: EntityClass::Creature,
        x: (gx * 2 * PLATFORM_W + gy * PLATFORM_W) as i32,
        y: (gy * ROW_STEP + CREATURE_LIFT) as i32,
        w: CREATURE_SIZE,
        h: CREATURE_SIZE,
    }
}

/// Placement `n` of the starting scene: the grid's four by four cells in
/// order of `gx`, then `gy`, each from `-GRID_HALF` up to `GRID_HALF - 1`,
/// and each giving its platform and then its creature.
pub open spec fn placement(n: int) -> Placement {
    let cell = n / 2;
    let gx = cell / 4 - 2;
    let gy = cell % 4 - 2;
    if n % 2 == 0 {
        platform_at(gx, gy)
    } else {
        creature_at(gx, gy)
    }
}

/// The platforms and creatures of the starting scene.
pub fn gen_world() -> (r: Vec<Placement>)
    ensures
        r@.len() == 32,
        forall|n: int| 0 <= n < r@.len() ==> #[trigger] r@[n] == placement(n),
{
    let mut out: Vec<Placement> = Vec::new();
    let mut gx: i32 = -GRID_HALF;
    while gx < GRID_HALF
        invariant
            -GRID_HALF <= gx <= GRID_HALF,
            out@.len() == 8 * (gx + 2),
            forall|n: int| 0 <= n < out@.len() ==> #[trigger] out@[n] == placement(n),
        decreases GRID_HALF - gx,
    {
        let mut gy: i32 = -GRID_HALF;
        while gy < GRID_HALF
            invariant
                -GRID_HALF <= gx < GRID_HALF,
                -GRID_HALF <= gy <= GRID_HALF,
                out@.len() == 8 * (gx + 2) + 2 * (gy + 2),
                forall|n: int| 0 <= n < out@.len() ==> #[trigger] out@[n] == placement(n),
            decreases GRID_HALF - gy,
        {
            let x: i32 = gx * 2 * PLATFORM_W + gy * PLATFORM_W;
            let y: i32 = gy * ROW_STEP;
            let ghost n = out@.len() as int;
            proof {
                let cell = 4 * (gx + 2) + (gy + 2);
                assert(n == 2 * cell);
                assert(n / 2 == cell);
                assert((n + 1) / 2 == cell);
                assert(cell / 4 == gx + 2);
                assert(cell % 4 == gy + 2);
            }
            out.push(Placement { class: EntityClass::World, x, y, w: PLATFORM_W, h: PLATFORM_H });
            out.push(
                Placement {
                    class: EntityClass::Creature,
                    x,
                    y: y + CREATURE_LIFT,
                    w: CREATURE_SIZE,
                    h: CREATURE_SIZE,
                },
            );
            assert(out@[n] == placement(n));
            assert(out@[n + 1] == placement(n + 1));
            gy = gy + 1;
        }
        gx = gx + 1;
    }
    out
}

} // verus!
