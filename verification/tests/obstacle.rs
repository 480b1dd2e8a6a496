use bracket_random::prelude::RandomNumberGenerator;
use flappy_dragon::obstacle::Obstacle;
use flappy_dragon::player::Player;

fn player_at(x: i32, y: i32) -> Player {
    let mut p = Player::new(x, y);
    p.x_speed = 1;
    p
}

#[test]
fn gap_size_follows_the_difficulty_curve() {
    let mut rng = RandomNumberGenerator::seeded(7);
    assert_eq!(Obstacle::new(100, 0, &mut rng).size, 20);
    assert_eq!(Obstacle::new(100, 3, &mut rng).size, 20);
    assert_eq!(Obstacle::new(100, 4, &mut rng).size, 19);
    assert_eq!(Obstacle::new(100, 40, &mut rng).size, 10);
    assert_eq!(Obstacle::new(100, 200, &mut rng).size, 2);
}

#[test]
fn gap_size_never_falls_below_the_floor() {
    let mut rng = RandomNumberGenerator::seeded(7);
    for score in [72, 73, 100, 100000, i32::MAX - 3] {
        assert!(Obstacle::new(100, score, &mut rng).size >= 2);
    }
}

#[test]
fn gap_size_is_non_increasing_in_score() {
    let mut rng = RandomNumberGenerator::seeded(7);
    let mut previous = Obstacle::new(100, 0, &mut rng).size;
    for score in 1..300 {
        let size = Obstacle::new(100, score, &mut rng).size;
        assert!(size <= previous);
        previous = size;
    }
}

#[test]
fn gap_center_is_drawn_in_range() {
    let mut rng = RandomNumberGenerator::seeded(11);
    for _ in 0..100 {
        let o = Obstacle::new(100, 0, &mut rng);
        assert!(o.y_gap >= 20 && o.y_gap < 40);
    }
}

#[test]
fn hit_boundary_is_inclusive_of_the_gap_edges() {
    let o = Obstacle { x: 10, y_gap: 30, size: 10 };
    // Inside the gap, level with either edge: not a hit.
    assert!(!o.hit_obstacle(&player_at(10, 25)));
    assert!(!o.hit_obstacle(&player_at(10, 35)));
    assert!(!o.hit_obstacle(&player_at(10, 30)));
    // One cell beyond either edge: a hit.
    assert!(o.hit_obstacle(&player_at(10, 24)));
    assert!(o.hit_obstacle(&player_at(10, 36)));
}

#[test]
fn hit_needs_the_column_to_match_the_span() {
    let o = Obstacle { x: 10, y_gap: 30, size: 10 };
    assert!(!o.hit_obstacle(&player_at(9, 0)));
    assert!(o.hit_obstacle(&player_at(10, 0)));
    assert!(o.hit_obstacle(&player_at(11, 0)));
    assert!(o.hit_obstacle(&player_at(12, 0)));
    assert!(!o.hit_obstacle(&player_at(13, 0)));
}
