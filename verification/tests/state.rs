use bracket_random::prelude::RandomNumberGenerator;
use flappy_dragon::config::GameConfig;
use flappy_dragon::effects::{Effect, SpeedBuffEffect};
use flappy_dragon::obstacle::Obstacle;
use flappy_dragon::player::Player;
use flappy_dragon::powerups::{PowerUp, SpeedPowerUp};
use flappy_dragon::state::{GameMode, KeyInput, State};

fn playing_state() -> State {
    let mut s = State::new(GameConfig::standard());
    s.restart();
    s
}

#[test]
fn new_game_opens_on_the_menu() {
    let s = State::new(GameConfig::standard());
    assert!(matches!(s.mode, GameMode::Menu));
    assert_eq!(s.score, 0);
    assert_eq!(s.player.x, 5);
    assert_eq!(s.player.y, 25);
    assert!(s.obstacle_vec.is_empty());
    assert!(s.powerups.is_empty());
}

#[test]
fn restart_resets_everything_and_starts_playing() {
    let mut s = playing_state();
    s.score = 17;
    s.player.x = 300;
    s.obstacle_vec.push(Obstacle { x: 310, y_gap: 30, size: 10 });
    s.restart();
    assert!(matches!(s.mode, GameMode::Playing));
    assert_eq!(s.score, 0);
    assert_eq!(s.player.x, 5);
    assert_eq!(s.player.y, 25);
    assert_eq!(s.player.x_speed, 0);
    assert!(s.obstacle_vec.is_empty());
    assert!(s.powerups.is_empty());
}

#[test]
fn spawner_keeps_at_least_three_obstacles_ahead() {
    let mut rng = RandomNumberGenerator::seeded(9);
    let mut s = playing_state();
    s.objects_spawn(&mut rng);
    assert!(s.obstacle_vec.len() >= 3);
    for o in &s.obstacle_vec {
        assert!(o.x >= s.player.x + 80);
        assert_eq!(o.size, 20);
    }
    // From an empty field: one seeded a screen ahead, three more at
    // half-screen spacing beyond the screen ahead.
    let xs: Vec<i32> = s.obstacle_vec.iter().map(|o| o.x).collect();
    assert_eq!(xs, vec![85, 125, 165, 205]);
    // A full collection is left alone.
    let before: Vec<i32> = s.obstacle_vec.iter().map(|o| o.x).collect();
    s.objects_spawn(&mut rng);
    let after: Vec<i32> = s.obstacle_vec.iter().map(|o| o.x).collect();
    assert_eq!(before, after);
}

#[test]
fn spawner_tops_up_a_depleted_collection() {
    let mut rng = RandomNumberGenerator::seeded(10);
    let mut s = playing_state();
    s.obstacle_vec.push(Obstacle { x: 40, y_gap: 30, size: 10 });
    s.obstacle_vec.push(Obstacle { x: 60, y_gap: 25, size: 10 });
    s.objects_spawn(&mut rng);
    assert_eq!(s.obstacle_vec.len(), 5);
    // The old entries keep their places; the new ones land ahead.
    assert_eq!(s.obstacle_vec[0].x, 40);
    assert_eq!(s.obstacle_vec[1].x, 60);
    for o in &s.obstacle_vec[2..] {
        assert!(o.x >= s.player.x + 80);
    }
}

#[test]
fn passing_an_obstacle_scores_and_ticks_effects() {
    let mut s = playing_state();
    s.player.x = 100;
    s.player.x_speed = 1;
    let buff = Effect::Speed(SpeedBuffEffect { time: 3 });
    buff.apply(&mut s.player);
    s.player.effects.push(buff);
    s.obstacle_vec.push(Obstacle { x: 90, y_gap: 30, size: 10 }); // passed: 93 < 100
    s.obstacle_vec.push(Obstacle { x: 97, y_gap: 30, size: 10 }); // kept: 100 is not < 100
    s.obstacle_vec.push(Obstacle { x: 150, y_gap: 30, size: 10 }); // kept
    s.out_of_vision_check();
    assert_eq!(s.score, 1);
    assert_eq!(s.obstacle_vec.len(), 2);
    assert_eq!(s.obstacle_vec[0].x, 97);
    assert_eq!(s.obstacle_vec[1].x, 150);
    // The effect countdown advanced once.
    match s.player.effects[0] {
        Effect::Speed(e) => assert_eq!(e.time, 2),
        Effect::Gravity(_) => panic!("wrong effect kind survived"),
    }
    assert_eq!(s.player.x_speed, 2);
}

#[test]
fn passing_two_obstacles_at_once_scores_both() {
    let mut s = playing_state();
    s.player.x = 200;
    s.player.x_speed = 1;
    s.obstacle_vec.push(Obstacle { x: 100, y_gap: 30, size: 10 });
    s.obstacle_vec.push(Obstacle { x: 150, y_gap: 25, size: 10 });
    s.obstacle_vec.push(Obstacle { x: 250, y_gap: 30, size: 10 });
    s.out_of_vision_check();
    assert_eq!(s.score, 2);
    assert_eq!(s.obstacle_vec.len(), 1);
    assert_eq!(s.obstacle_vec[0].x, 250);
}

#[test]
fn cleanup_without_passed_obstacles_leaves_effects_alone() {
    let mut s = playing_state();
    s.player.x = 100;
    s.player.x_speed = 1;
    let buff = Effect::Speed(SpeedBuffEffect { time: 3 });
    buff.apply(&mut s.player);
    s.player.effects.push(buff);
    s.obstacle_vec.push(Obstacle { x: 150, y_gap: 30, size: 10 });
    s.out_of_vision_check();
    assert_eq!(s.score, 0);
    match s.player.effects[0] {
        Effect::Speed(e) => assert_eq!(e.time, 3),
        Effect::Gravity(_) => panic!("wrong effect kind survived"),
    }
}

#[test]
fn scrolled_past_powerups_are_dropped_uncollected() {
    let mut s = playing_state();
    s.player.x = 100;
    s.powerups.push(PowerUp::Speed(SpeedPowerUp { x: 99, y: 10, size: 5 }));
    s.powerups.push(PowerUp::Speed(SpeedPowerUp { x: 100, y: 10, size: 5 }));
    s.powerups.push(PowerUp::Speed(SpeedPowerUp { x: 140, y: 10, size: 5 }));
    s.out_of_vision_check();
    assert_eq!(s.powerups.len(), 2);
    assert_eq!(s.player.effects.len(), 0);
    assert_eq!(s.score, 0);
}

#[test]
fn touching_a_powerup_grants_and_removes_it() {
    let mut s = playing_state();
    s.player.x = 50;
    s.player.y = 12;
    s.player.x_speed = 1;
    s.powerups.push(PowerUp::Speed(SpeedPowerUp { x: 50, y: 10, size: 5 }));
    s.powerups.push(PowerUp::Speed(SpeedPowerUp { x: 70, y: 10, size: 5 }));
    s.collisions_check();
    assert_eq!(s.powerups.len(), 1);
    assert_eq!(s.player.effects.len(), 1);
    assert_eq!(s.player.x_speed, 2);
    assert!(matches!(s.mode, GameMode::Playing));
}

#[test]
fn hitting_an_obstacle_ends_the_run() {
    let mut s = playing_state();
    s.player.x = 50;
    s.player.y = 10;
    s.obstacle_vec.push(Obstacle { x: 49, y_gap: 30, size: 10 });
    s.collisions_check();
    assert!(matches!(s.mode, GameMode::End));
}

#[test]
fn flying_through_the_gap_does_not_end_the_run() {
    let mut s = playing_state();
    s.player.x = 50;
    s.player.y = 30;
    s.obstacle_vec.push(Obstacle { x: 49, y_gap: 30, size: 10 });
    s.collisions_check();
    assert!(matches!(s.mode, GameMode::Playing));
}

#[test]
fn leaving_the_vertical_playfield_ends_the_run() {
    let mut s = playing_state();
    s.player.y = 51;
    s.collisions_check();
    assert!(matches!(s.mode, GameMode::End));
    let mut s2 = playing_state();
    s2.player.y = -1;
    s2.collisions_check();
    assert!(matches!(s2.mode, GameMode::End));
}

#[test]
fn quit_key_ends_a_running_game() {
    let mut rng = RandomNumberGenerator::seeded(12);
    let mut s = playing_state();
    let quit = s.tick(Some(KeyInput::Quit), &mut rng);
    assert!(!quit);
    assert!(matches!(s.mode, GameMode::End));
}

#[test]
fn menu_dispatch_starts_restarts_and_quits() {
    let mut rng = RandomNumberGenerator::seeded(13);
    let mut s = State::new(GameConfig::standard());
    assert!(!s.tick(Some(KeyInput::Flap), &mut rng));
    assert!(matches!(s.mode, GameMode::Menu));
    assert!(!s.tick(Some(KeyInput::Start), &mut rng));
    assert!(matches!(s.mode, GameMode::Playing));
    assert!(!s.tick(Some(KeyInput::Quit), &mut rng));
    assert!(matches!(s.mode, GameMode::End));
    assert!(s.tick(Some(KeyInput::Quit), &mut rng));
    assert!(matches!(s.mode, GameMode::End));
}

#[test]
fn background_alert_tracks_boosted_speed() {
    let mut s = playing_state();
    assert!(!s.background_alert());
    s.player.x_speed = 1;
    assert!(!s.background_alert());
    s.player.x_speed = 2;
    assert!(s.background_alert());
}

#[test]
fn full_run_flap_once_then_fall_to_the_end() {
    let mut rng = RandomNumberGenerator::seeded(21);
    let mut s = State::new(GameConfig::standard());
    assert!(!s.tick(Some(KeyInput::Start), &mut rng));
    // Launch with one flap; from then on the player falls freely.
    assert!(!s.tick(Some(KeyInput::Flap), &mut rng));
    assert_eq!(s.player.x_speed, 1);
    let mut ticks = 0;
    while matches!(s.mode, GameMode::Playing) && ticks < 200 {
        let x_before = s.player.x;
        let speed_before = s.player.x_speed;
        let quit = s.tick(None, &mut rng);
        assert!(!quit);
        // Each playing tick advances the player by its scroll speed.
        assert_eq!(s.player.x, x_before + speed_before);
        ticks += 1;
    }
    assert!(matches!(s.mode, GameMode::End));
    // The player falls out at the bottom long before the first obstacle
    // (a screen-width ahead) can be reached or passed.
    assert_eq!(s.score, 0);
    assert!(s.player.y > 50);
    assert!(s.player.x < 85);
}
