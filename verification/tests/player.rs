use flappy_dragon::player::Player;

#[test]
fn new_player_is_at_rest() {
    let p = Player::new(5, 25);
    assert_eq!(p.x, 5);
    assert_eq!(p.y, 25);
    assert_eq!(p.velocity, 0);
    assert_eq!(p.velocity_base, 1);
    assert_eq!(p.x_speed, 0);
    assert_eq!(p.effects.len(), 0);
}

#[test]
fn gravity_is_a_noop_before_launch() {
    let mut p = Player::new(5, 25);
    p.gravity_and_move();
    p.gravity_and_move();
    assert_eq!(p.x, 5);
    assert_eq!(p.y, 25);
    assert_eq!(p.velocity, 0);
}

#[test]
fn flap_resets_velocity_to_impulse() {
    let mut p = Player::new(5, 25);
    p.velocity = 4;
    p.flap();
    assert_eq!(p.velocity, -8);
    assert_eq!(p.y, 25);
}

#[test]
fn gravity_integrates_halves_truncated_toward_zero() {
    let mut p = Player::new(5, 25);
    p.x_speed = 1;
    p.flap();
    // velocity (in half-cells) climbs from -8 by the base increment 1 per tick;
    // y moves by the truncated whole-cell part of the updated velocity.
    let expected: [(i32, i32); 8] = [
        (-7, 22), // 25 + (-3)
        (-6, 19),
        (-5, 17), // -5/2 truncates to -2
        (-4, 15),
        (-3, 14),
        (-2, 13),
        (-1, 13), // -1/2 truncates to 0
        (0, 13),
    ];
    for (v, y) in expected {
        p.gravity_and_move();
        assert_eq!(p.velocity, v);
        assert_eq!(p.y, y);
    }
}

#[test]
fn fall_speed_is_capped_at_five_halves() {
    let mut p = Player::new(5, 25);
    p.x_speed = 1;
    for _ in 0..20 {
        p.gravity_and_move();
    }
    assert_eq!(p.velocity, 5);
    let y_before = p.y;
    p.gravity_and_move();
    assert_eq!(p.velocity, 5);
    assert_eq!(p.y, y_before + 2); // 5/2 truncates to 2
}

#[test]
fn horizontal_motion_follows_scroll_speed() {
    let mut p = Player::new(5, 25);
    p.x_speed = 3;
    p.gravity_and_move();
    assert_eq!(p.x, 8);
    p.gravity_and_move();
    assert_eq!(p.x, 11);
}
