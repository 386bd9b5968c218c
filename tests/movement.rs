use blob_combat::groups::{ATTACK_GROUP, PLAYER_GROUP};
use blob_combat::physics::{Fixed2, Wide2};
use blob_combat::player::{
    player_move, player_shoot, BodyState, Facing, MoveIntent, Player, ATTACK_LIFETIME_US,
    FIRE_COOLDOWN_US,
};

fn still() -> MoveIntent {
    MoveIntent { jump: false, left: false, right: false, spin_ccw: false, spin_cw: false }
}

fn body(vx: i64, vy: i64, w: i64, mass: u32) -> BodyState {
    BodyState { velocity: Fixed2 { x: vx, y: vy }, angular_velocity: w, mass }
}

fn fresh_player() -> Player {
    Player { next_fire_us: 0, facing: Facing::Right }
}

#[test]
fn jump_zeroes_vertical_velocity_then_impulses() {
    let mut p = fresh_player();
    for vy in [-7_000i64, 0, 3_000] {
        let plan = player_move(&mut p, body(0, vy, 0, 1_000), MoveIntent { jump: true, ..still() });
        assert_eq!(plan.velocity, Fixed2 { x: 0, y: 0 });
        let j = plan.jump_impulse.unwrap();
        assert_eq!(j, Wide2 { x: 0, y: 40_000_000 });
        // impulse over mass: the vertical speed after the jump is the same every time
        assert_eq!(plan.velocity.y as i128 + j.y / 1_000, 40_000);
    }
}

#[test]
fn no_jump_keeps_vertical_velocity() {
    let mut p = fresh_player();
    let plan = player_move(&mut p, body(0, -2_500, 0, 1_000), still());
    assert_eq!(plan.velocity.y, -2_500);
    assert_eq!(plan.jump_impulse, None);
    assert_eq!(plan.drive_force, None);
    assert_eq!(plan.friction_force, None);
    assert_eq!(plan.angular_velocity, 0);
}

#[test]
fn lateral_keys_drive_and_set_facing() {
    let mut p = fresh_player();
    let plan = player_move(&mut p, body(0, 0, 0, 1_000), MoveIntent { left: true, ..still() });
    assert_eq!(plan.drive_force, Some(Wide2 { x: -400_000_000, y: 0 }));
    assert_eq!(p.facing, Facing::Left);
    let plan = player_move(&mut p, body(0, 0, 0, 1_000), MoveIntent { right: true, ..still() });
    assert_eq!(plan.drive_force, Some(Wide2 { x: 400_000_000, y: 0 }));
    assert_eq!(p.facing, Facing::Right);
    let mut q = Player { next_fire_us: 9, facing: Facing::Left };
    let plan = player_move(&mut q, body(0, 0, 0, 1_000), MoveIntent { left: true, right: true, ..still() });
    assert_eq!(plan.drive_force, None);
    assert_eq!(q.facing, Facing::Right);
    assert_eq!(q.next_fire_us, 9);
}

#[test]
fn spin_keys_adjust_angular_velocity() {
    let mut p = fresh_player();
    let plan = player_move(&mut p, body(0, 0, 500, 1_000), MoveIntent { spin_ccw: true, ..still() });
    assert_eq!(plan.angular_velocity, 20_500);
    let plan = player_move(&mut p, body(0, 0, 500, 1_000), MoveIntent { spin_cw: true, ..still() });
    assert_eq!(plan.angular_velocity, -19_500);
    let plan = player_move(
        &mut p,
        body(0, 0, 500, 1_000),
        MoveIntent { spin_ccw: true, spin_cw: true, ..still() },
    );
    assert_eq!(plan.angular_velocity, 20_500);
    let plan = player_move(&mut p, body(0, 0, 500, 1_000), still());
    assert_eq!(plan.angular_velocity, 500);
}

#[test]
fn friction_opposes_horizontal_velocity() {
    let mut p = fresh_player();
    let plan = player_move(&mut p, body(2_000, 0, 0, 1_000), still());
    assert_eq!(plan.friction_force, Some(Wide2 { x: -40_000_000, y: 0 }));
    let plan = player_move(&mut p, body(-3, 0, 0, 100), still());
    assert_eq!(plan.friction_force, Some(Wide2 { x: 6_000, y: 0 }));
}

#[test]
fn friction_decays_without_sign_change() {
    // integrate the friction force the way the physics engine does, 16 ms a step
    let mass: i128 = 1_000;
    let dt_us: i128 = 16_000;
    for v0 in [5_000i64, -5_000, 1, -1] {
        let mut v = v0;
        let mut p = fresh_player();
        for _ in 0..200 {
            let plan = player_move(&mut p, body(v, 0, 0, 1_000), still());
            let f = plan.friction_force.map(|f| f.x).unwrap_or(0);
            let dv = (f / mass * dt_us).div_euclid(1_000_000);
            let next = (v as i128 + dv) as i64;
            assert!(next.abs() <= v.abs());
            assert!(next == 0 || next.signum() == v0.signum());
            v = next;
        }
        assert!(v.abs() <= 3);
    }
}

#[test]
fn huge_velocity_and_mass_do_not_overflow() {
    let mut p = fresh_player();
    let plan = player_move(&mut p, body(i64::MIN, i64::MAX, i64::MAX, u32::MAX), MoveIntent {
        jump: true,
        spin_ccw: true,
        ..still()
    });
    assert_eq!(
        plan.friction_force,
        Some(Wide2 { x: 20 * (u32::MAX as i128) * -(i64::MIN as i128), y: 0 })
    );
    assert_eq!(plan.angular_velocity, i64::MAX as i128 + 20 * u32::MAX as i128);
}

#[test]
fn shooting_spawns_in_front_of_the_player() {
    let mut p = Player { next_fire_us: 0, facing: Facing::Left };
    let a = player_shoot(&mut p, true, 1_000_000, Fixed2 { x: 10_000, y: 2_000 }).unwrap();
    assert_eq!(a.center, Fixed2 { x: 8_500, y: 2_750 });
    assert_eq!(a.half_extent, 1_000);
    assert_eq!(a.facing, Facing::Left);
    assert_eq!(a.groups.memberships, ATTACK_GROUP);
    assert_eq!(a.groups.filter & PLAYER_GROUP, 0);
    assert_eq!(a.lifetime_us, ATTACK_LIFETIME_US);
    assert_eq!(p.next_fire_us, 1_000_000 + FIRE_COOLDOWN_US);
}

#[test]
fn two_requests_within_cooldown_spawn_one_attack() {
    let mut p = fresh_player();
    let pos = Fixed2 { x: 0, y: 0 };
    let first = player_shoot(&mut p, true, 100, pos);
    let second = player_shoot(&mut p, true, 100 + FIRE_COOLDOWN_US, pos);
    assert!(first.is_some());
    assert!(second.is_none());
    let third = player_shoot(&mut p, true, 101 + FIRE_COOLDOWN_US, pos);
    assert_eq!(third.unwrap().center, Fixed2 { x: 1_500, y: 750 });
}

#[test]
fn no_shot_without_the_key_or_at_time_zero() {
    let mut p = fresh_player();
    assert!(player_shoot(&mut p, false, 5_000_000, Fixed2 { x: 0, y: 0 }).is_none());
    assert_eq!(p.next_fire_us, 0);
    assert!(player_shoot(&mut p, true, 0, Fixed2 { x: 0, y: 0 }).is_none());
}

#[test]
fn cooldown_end_saturates() {
    let mut p = fresh_player();
    assert!(player_shoot(&mut p, true, u64::MAX - 1, Fixed2 { x: 0, y: 0 }).is_some());
    assert_eq!(p.next_fire_us, u64::MAX);
    assert!(player_shoot(&mut p, true, u64::MAX, Fixed2 { x: 0, y: 0 }).is_none());
}
