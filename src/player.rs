use crate::groups::{attack_groups, body_groups, CollisionGroups, EntityClass, ALL_GROUPS, ATTACK_GROUP, PLAYER_GROUP};
use crate::physics::{after_force, after_impulse, Fixed2, Wide2, MICROS_PER_SECOND};
use vstd::arithmetic::div_mod::lemma_div_multiples_vanish;
use vstd::prelude::*;

verus! {

/// Horizontal facing of the player, which aims its attacks.
#[derive(Clone, Copy, Debug, PartialEq, Eq, Structural)]
pub enum Facing {
    Left,
    Right,
}

/// The player's own state: facing and the earliest time of the next attack.
#[derive(Clone, Copy, Debug, PartialEq, Eq, Structural)]
pub struct Player {
    pub next_fire_us: u64,
    pub facing: Facing,
}

/// What the physics engine reports of the player's body this frame.
#[derive(Clone, Copy, Debug, PartialEq, Eq, Structural)]
pub struct BodyState {
    pub velocity: Fixed2,
    /// Millionths of a radian per second.
    pub angular_velocity: i64,
    /// Thousandths of a mass unit.
    pub mass: u32,
}

/// The movement keys held or pressed this frame.
#[derive(Clone, Copy, Debug, PartialEq, Eq, Structural)]
pub struct MoveIntent {
    /// Jump was pressed this frame.
    pub jump: bool,
    pub left: bool,
    pub right: bool,
    /// Spin counter-clockwise; wins over `spin_cw` when both are held.
    pub spin_ccw: bool,
    pub spin_cw: bool,
}

/// What the movement system writes back to the player's body, in this order:
/// overwrite velocity and angular velocity, then apply the jump impulse, the
/// drive force and the friction force, each only when present.
#[derive(Clone, Copy, Debug, PartialEq, Eq, Structural)]
pub struct MovePlan {
    pub velocity: Fixed2,
    pub angular_velocity: i128,
    pub jump_impulse: Option<Wide2>,
    pub drive_force: Option<Wide2>,
    pub friction_force: Option<Wide2>,
}

/// Jump impulse per unit of mass: the jump speed, in thousandths per second.
pub const JUMP_PER_MASS: i128 = 40_000;

/// Lateral drive force per unit of mass.
pub const DRIVE_PER_MASS: i128 = 400_000;

/// Friction force per unit of mass and of horizontal velocity.
pub const FRICTION_PER_MASS: i128 = 20;

/// Angular velocity change per frame per unit of mass.
pub const SPIN_PER_MASS: i128 = 20;

/// Facing after the lateral keys: right wins when both are held.
pub open spec fn facing_after(f: Facing, intent: MoveIntent) -> Facing {
    if intent.right {
        Facing::Right
    } else if intent.left {
        Facing::Left
    } else {
        f
    }
}

/// Net lateral drive force: the two directions cancel when both are held.
pub open spec fn drive_of(mass: int, intent: MoveIntent) -> int {
    (if intent.right {
        DRIVE_PER_MASS * mass
    } else {
        0
    }) - (if intent.left {
        DRIVE_PER_MASS * mass
    } else {
        0
    })
}

/// Friction force against a horizontal velocity.
pub open spec fn friction_of(mass: int, vx: int) -> int {
    -(FRICTION_PER_MASS * (mass * vx))
}

/// Angular velocity after the spin keys.
pub open spec fn spin_after(w: int, mass: int, intent: MoveIntent) -> int {
    if intent.spin_ccw {
        w + SPIN_PER_MASS * mass
    } else if intent.spin_cw {
        w - SPIN_PER_MASS * mass
    } else {
        w
    }
}

/// The movement plan for a body and the keys of this frame.
pub open spec fn move_plan(body: BodyState, intent: MoveIntent) -> MovePlan {
    let m = body.mass as int;
    let drive = drive_of(m, intent);
    let friction = friction_of(m, body.velocity.x as int);
    MovePlan {
        velocity: Fixed2 {
            x: body.velocity.x,
            y: if intent.jump {
                0
            } else {
                body.velocity.y
            },
        },
        angular_velocity: spin_after(body.angular_velocity as int, m, intent) as i128,
        jump_impulse: if intent.jump {
            Some(Wide2 { x: 0, y: (JUMP_PER_MASS * m) as i128 })
        } else {
            None
        },
        drive_force: if drive != 0 {
            Some(Wide2 { x: drive as i128, y: 0 })
        } else {
            None
        },
        friction_force: if friction != 0 {
            Some(Wide2 { x: friction as i128, y: 0 })
        } else {
            None
        },
    }
}

/// Movement and control of the player for one frame: jump resets the
/// vertical velocity before its impulse, lateral keys drive and set the
/// facing, spin keys nudge the angular velocity, and friction opposes the
/// horizontal velocity.
pub fn player_move(player: &mut Player, body: BodyState, intent: MoveIntent) -> (plan: MovePlan)
    ensures
        plan == move_plan(body, intent),
        final(player).facing == facing_after(old(player).facing, intent),
        final(player).next_fire_us == old(player).next_fire_us,
{
    let m: i128 = body.mass as i128;
    let vx: i128 = body.velocity.x as i128;
    assert(0 <= m <= 0xffff_ffff);
    assert(-0x8000_0000_0000_0000 <= vx < 0x8000_0000_0000_0000);
    assert(-0x8000_0000_0000_0000_0000_0000 <= m * vx <= 0x8000_0000_0000_0000_0000_0000)
        by (nonlinear_arith)
        requires
            0 <= m <= 0xffff_ffff,
            -0x8000_0000_0000_0000 <= vx < 0x8000_0000_0000_0000,
    ;
    let mut drive: i128 = 0;
    if intent.left {
        drive = drive - DRIVE_PER_MASS * m;
        player.facing = Facing::Left;
    }
    if intent.right {
        drive = drive + DRIVE_PER_MASS * m;
        player.facing = Facing::Right;
    }
    let w: i128 = body.angular_velocity as i128;
    let spin: i128 = if intent.spin_ccw {
        w + SPIN_PER_MASS * m
    } else if intent.spin_cw {
        w - SPIN_PER_MASS * m
    } else {
        w
    };
    let vy: i64 = if intent.jump {
        0
    } else {
        body.velocity.y
    };
    let jump_impulse = if intent.jump {
        Some(Wide2 { x: 0, y: JUMP_PER_MASS * m })
    } else {
        None
    };
    let drive_force = if drive != 0 {
        Some(Wide2 { x: drive, y: 0 })
    } else {
        None
    };
    let friction: i128 = -(FRICTION_PER_MASS * (m * vx));
    let friction_force = if friction != 0 {
        Some(Wide2 { x: friction, y: 0 })
    } else {
        None
    };
    MovePlan {
        velocity: Fixed2 { x: body.velocity.x, y: vy },
        angular_velocity: spin,
        jump_impulse,
        drive_force,
        friction_force,
    }
}

/// Jump reset: on a jump frame of a body with mass, the vertical velocity
/// once the jump impulse is applied is the jump speed alone, whatever the
/// vertical velocity was before.
pub proof fn lemma_jump_resets_vertical(body: BodyState, intent: MoveIntent)
    requires
        intent.jump,
        body.mass > 0,
    ensures
        ({
            let plan = move_plan(body, intent);
            &&& plan.velocity.y == 0
            &&& plan.jump_impulse is Some
            &&& after_impulse(plan.velocity.y as int, plan.jump_impulse->0.y as int, body.mass as int)
                == 0 + JUMP_PER_MASS
        }),
{
    let m = body.mass as int;
    lemma_div_multiples_vanish(JUMP_PER_MASS as int, m);
    assert(JUMP_PER_MASS * m == m * JUMP_PER_MASS);
}

/// Horizontal velocity of a body coasting with no lateral keys for `n`
/// steps of `dt_us` microseconds, friction being the only force.
pub open spec fn coast(v0: int, mass: int, dt_us: int, n: nat) -> int
    decreases n,
{
    if n == 0 {
        v0
    } else {
        let v = coast(v0, mass, dt_us, (n - 1) as nat);
        after_force(v, friction_of(mass, v), mass, dt_us)
    }
}

proof fn lemma_friction_step(v: int, mass: int, dt_us: int)
    requires
        mass > 0,
        0 <= dt_us,
        FRICTION_PER_MASS * dt_us <= MICROS_PER_SECOND,
    ensures
        v >= 0 ==> 0 <= after_force(v, friction_of(mass, v), mass, dt_us) <= v,
        v <= 0 ==> v <= after_force(v, friction_of(mass, v), mass, dt_us) <= 0,
{
    let a = -FRICTION_PER_MASS * v;
    assert(friction_of(mass, v) == mass * a) by (nonlinear_arith)
        requires
            FRICTION_PER_MASS == 20,
            a == -20 * v,
            friction_of(mass, v) == -(20 * (mass * v)),
    ;
    lemma_div_multiples_vanish(a, mass);
    let t = a * dt_us;
    if v >= 0 {
        assert(-v * 1_000_000 <= t <= 0) by (nonlinear_arith)
            requires
                v >= 0,
                0 <= dt_us,
                20 * dt_us <= 1_000_000,
                t == (-20 * v) * dt_us,
        ;
    } else {
        assert(0 <= t <= -v * 1_000_000) by (nonlinear_arith)
            requires
                v < 0,
                0 <= dt_us,
                20 * dt_us <= 1_000_000,
                t == (-20 * v) * dt_us,
        ;
    }
}

/// Friction decay: coasting with no lateral keys, friction moves the
/// horizontal velocity toward zero at every step and never reverses it,
/// provided each step is at most a twentieth of a second.
pub proof fn lemma_friction_decays(v0: int, mass: int, dt_us: int, n: nat)
    requires
        mass > 0,
        0 <= dt_us,
        FRICTION_PER_MASS * dt_us <= MICROS_PER_SECOND,
    ensures
        v0 >= 0 ==> 0 <= coast(v0, mass, dt_us, n + 1) <= coast(v0, mass, dt_us, n),
        v0 <= 0 ==> coast(v0, mass, dt_us, n) <= coast(v0, mass, dt_us, n + 1) <= 0,
    decreases n,
{
    if n > 0 {
        lemma_friction_decays(v0, mass, dt_us, (n - 1) as nat);
    }
    lemma_friction_step(coast(v0, mass, dt_us, n), mass, dt_us);
}

/// Shortest time between two attacks.
pub const FIRE_COOLDOWN_US: u64 = 500_000;

/// How long an attack hitbox lives unless it connects first.
pub const ATTACK_LIFETIME_US: u64 = 100_000;

/// Horizontal distance from the player's centre to an attack's centre.
pub const ATTACK_OFFSET_X: i64 = 1_500;

/// Vertical distance from the player's centre to an attack's centre.
pub const ATTACK_OFFSET_Y: i64 = 750;

/// Half the side of an attack's square hitbox.
pub const ATTACK_HALF_EXTENT: i64 = 1_000;

/// An attack hitbox to spawn: a sensor square in front of the player.
#[derive(Clone, Copy, Debug, PartialEq, Eq, Structural)]
pub struct AttackSpawn {
    pub center: Fixed2,
    pub half_extent: i64,
    pub facing: Facing,
    pub groups: CollisionGroups,
    pub lifetime_us: u64,
}

/// The fire key is held and the cooldown has run out.
pub open spec fn fires(player: Player, fire_held: bool, now_us: u64) -> bool {
    fire_held && player.next_fire_us < now_us
}

/// The earliest time of the next attack after one fired at `now_us`.
pub open spec fn next_fire_after(now_us: u64) -> u64 {
    if now_us + FIRE_COOLDOWN_US <= u64::MAX {
        (now_us + FIRE_COOLDOWN_US) as u64
    } else {
        u64::MAX
    }
}

/// The attack fired by a player at `position` facing `facing`.
pub open spec fn attack_spawn(position: Fixed2, facing: Facing) -> AttackSpawn {
    AttackSpawn {
        center: Fixed2 {
            x: (if facing == Facing::Right {
                position.x + ATTACK_OFFSET_X
            } else {
                position.x - ATTACK_OFFSET_X
            }) as i64,
            y: (position.y + ATTACK_OFFSET_Y) as i64,
        },
        half_extent: ATTACK_HALF_EXTENT,
        facing,
        groups: CollisionGroups { memberships: ATTACK_GROUP, filter: ALL_GROUPS & !PLAYER_GROUP },
        lifetime_us: ATTACK_LIFETIME_US,
    }
}

/// Fires an attack when the fire key is held and the cooldown has run out;
/// each attack fired restarts the cooldown.
pub fn player_shoot(player: &mut Player, fire_held: bool, now_us: u64, position: Fixed2) -> (r:
    Option<AttackSpawn>)
    requires
        i64::MIN + ATTACK_OFFSET_X <= position.x <= i64::MAX - ATTACK_OFFSET_X,
        position.y <= i64::MAX - ATTACK_OFFSET_Y,
    ensures
        r is Some <==> fires(*old(player), fire_held, now_us),
        fires(*old(player), fire_held, now_us) ==> r == Some(
            attack_spawn(position, old(player).facing),
        ) && *final(player) == (Player {
            next_fire_us: next_fire_after(now_us),
            facing: old(player).facing,
        }),
        !fires(*old(player), fire_held, now_us) ==> *final(player) == *old(player),
{
    if !(fire_held && player.next_fire_us < now_us) {
        return None;
    }
    player.next_fire_us = now_us.saturating_add(FIRE_COOLDOWN_US);
    let x: i64 = match player.facing {
        Facing::Right => position.x + ATTACK_OFFSET_X,
        Facing::Left => position.x - ATTACK_OFFSET_X,
    };
    let groups = attack_groups(body_groups(EntityClass::Player));
    Some(
        AttackSpawn {
            center: Fixed2 { x, y: position.y + ATTACK_OFFSET_Y },
            half_extent: ATTACK_HALF_EXTENT,
            facing: player.facing,
            groups,
            lifetime_us: ATTACK_LIFETIME_US,
        },
    )
}

/// Cooldown gate: after an attack fired at `t1`, no attack fires at any
/// `t2` up to the end of the cooldown window, so two fire requests within
/// the window spawn exactly one attack.
pub proof fn lemma_cooldown_gate(player: Player, t1: u64, t2: u64, held_again: bool)
    requires
        fires(player, true, t1),
        t1 <= t2 <= t1 + FIRE_COOLDOWN_US,
    ensures
        !fires(
            Player { next_fire_us: next_fire_after(t1), facing: player.facing },
            held_again,
            t2,
        ),
{
}

} // verus!
