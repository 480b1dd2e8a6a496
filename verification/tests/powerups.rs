use bracket_random::prelude::RandomNumberGenerator;
use flappy_dragon::effects::Effect;
use flappy_dragon::player::Player;
use flappy_dragon::powerups::{GravityDebuff, PowerUp, SpeedPowerUp};

fn player_at(x: i32, y: i32) -> Player {
    Player::new(x, y)
}

#[test]
fn speed_powerup_spawns_inside_the_playfield() {
    let mut rng = RandomNumberGenerator::seeded(3);
    for _ in 0..200 {
        let p = SpeedPowerUp::new(85, 50, &mut rng);
        assert_eq!(p.x, 85);
        assert!(p.size >= 5 && p.size < 40);
        assert!(p.y >= 2);
        assert!(p.y + p.size < 50);
    }
}

#[test]
fn gravity_debuff_spawns_inside_the_playfield() {
    let mut rng = RandomNumberGenerator::seeded(4);
    for _ in 0..200 {
        let p = GravityDebuff::new(85, 50, &mut rng);
        assert_eq!(p.x, 85);
        assert!(p.size >= 5 && p.size < 40);
        assert!(p.y >= 2);
        assert!(p.y + p.size < 50);
    }
}

#[test]
fn collision_band_is_top_inclusive_bottom_exclusive() {
    let p = PowerUp::Speed(SpeedPowerUp { x: 20, y: 10, size: 5 });
    assert!(!p.is_collide(&player_at(20, 9)));
    assert!(p.is_collide(&player_at(20, 10)));
    assert!(p.is_collide(&player_at(20, 14)));
    assert!(!p.is_collide(&player_at(20, 15)));
    // The column must match exactly.
    assert!(!p.is_collide(&player_at(19, 12)));
    assert!(!p.is_collide(&player_at(21, 12)));
}

#[test]
fn each_variant_grants_its_effect() {
    let speed = PowerUp::Speed(SpeedPowerUp { x: 20, y: 10, size: 5 });
    match speed.get_effect() {
        Effect::Speed(e) => assert_eq!(e.time, 10),
        Effect::Gravity(_) => panic!("speed power-up granted a gravity effect"),
    }
    let gravity = PowerUp::Gravity(GravityDebuff { x: 20, y: 10, size: 5 });
    match gravity.get_effect() {
        Effect::Gravity(e) => assert_eq!(e.time, 5),
        Effect::Speed(_) => panic!("gravity power-up granted a speed effect"),
    }
}

#[test]
fn get_x_reports_the_world_column() {
    let p = PowerUp::Gravity(GravityDebuff { x: 123, y: 10, size: 5 });
    assert_eq!(p.get_x(), 123);
}
