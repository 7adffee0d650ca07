use snake_core::game::{ConfigError, Game, Outcome, Settings};
use snake_core::geometry::{Direction, SnakeBody, Vec2};

fn v(x: i64, y: i64) -> Vec2 {
    Vec2 { x, y }
}

fn seg(x: i64, y: i64, direction: Direction) -> SnakeBody {
    SnakeBody {
        pos: v(x, y),
        direction,
    }
}

fn default_settings() -> Settings {
    Settings {
        board_size: v(21, 17),
        min_len: 3,
        tick_ms: 200,
    }
}

fn occupied_contains(occupied: &[Vec2], p: Vec2) -> bool {
    occupied.iter().any(|q| *q == p)
}

#[test]
fn new_game_starts_centered_facing_up() {
    let g = Game::new(default_settings(), 1).unwrap();
    let s = g.snapshot();
    assert_eq!(s.score, 0);
    assert_eq!(s.occupied, vec![v(11, 9)]);
    assert_eq!(s.board_size, v(21, 17));
    assert_eq!(g.head_direction(), Direction::Up);
    assert!(!g.game_over());
    // the apple is on the board and never on the snake
    assert!(1 <= s.apple.x && s.apple.x <= 21);
    assert!(1 <= s.apple.y && s.apple.y <= 17);
    assert_ne!(s.apple, v(11, 9));
}

#[test]
fn new_game_is_deterministic_per_seed() {
    let a = Game::new(default_settings(), 42).unwrap().snapshot();
    let b = Game::new(default_settings(), 42).unwrap().snapshot();
    assert_eq!(a.apple, b.apple);
}

fn expect_invalid(r: Result<Game, ConfigError>) {
    match r {
        Err(e) => assert_eq!(e, ConfigError::InvalidConfiguration),
        Ok(_) => panic!("configuration was accepted"),
    }
}

#[test]
fn invalid_configurations_are_rejected() {
    let mut s = default_settings();
    s.min_len = 0;
    expect_invalid(Game::new(s, 0));
    let mut s = default_settings();
    s.board_size = v(1, 1);
    expect_invalid(Game::new(s, 0));
    let mut s = default_settings();
    s.board_size = v(2, 17);
    // board narrower than the minimum length
    expect_invalid(Game::new(s, 0));
    let mut s = default_settings();
    s.tick_ms = 0;
    expect_invalid(Game::new(s, 0));
    assert!(Game::new(default_settings(), 0).is_ok());
}

#[test]
fn startup_ramp_reaches_minimum_length() {
    // Find a seed whose first apple is off the head's straight path, so the
    // first two ticks eat nothing.
    let mut chosen = None;
    for seed in 0..64 {
        let g = Game::new(default_settings(), seed).unwrap();
        let apple = g.snapshot().apple;
        if apple != v(11, 8) && apple != v(11, 7) {
            chosen = Some(g);
            break;
        }
    }
    let mut g = chosen.expect("some seed places the first apple off the path");
    let o1 = g.tick(None);
    assert_eq!(o1, Outcome::Continue);
    assert_eq!(g.snake_len(), 2);
    let o2 = g.tick(None);
    assert_eq!(o2, Outcome::Continue);
    assert_eq!(g.snake_len(), 3);
    let s = g.snapshot();
    assert_eq!(s.occupied, vec![v(11, 7), v(11, 8), v(11, 9)]);
    assert_eq!(s.score, 0);
}

#[test]
fn length_never_drops_below_minimum() {
    let mut g = Game::new(default_settings(), 9).unwrap();
    for tick in 0..40 {
        let o = g.tick(None);
        if tick >= 2 {
            assert!(g.snake_len() >= 3);
        }
        match o {
            Outcome::Continue | Outcome::AteApple => {}
            _ => break,
        }
    }
}

#[test]
fn reversal_is_rejected() {
    // A snake moving Up ignores a Down intent in the same tick.
    let snake = vec![
        seg(10, 9, Direction::Up),
        seg(10, 10, Direction::Up),
        seg(10, 11, Direction::Up),
    ];
    let mut g = Game::from_parts(default_settings(), snake, v(1, 1), 0, 5).unwrap();
    let o = g.tick(Some(Direction::Down));
    assert_eq!(o, Outcome::Continue);
    assert_eq!(g.head_direction(), Direction::Up);
    let s = g.snapshot();
    assert_eq!(s.occupied[0], v(10, 8));
}

#[test]
fn sideways_intent_is_taken() {
    let snake = vec![
        seg(10, 9, Direction::Up),
        seg(10, 10, Direction::Up),
        seg(10, 11, Direction::Up),
    ];
    let mut g = Game::from_parts(default_settings(), snake, v(1, 1), 0, 5).unwrap();
    let o = g.tick(Some(Direction::Left));
    assert_eq!(o, Outcome::Continue);
    assert_eq!(g.head_direction(), Direction::Left);
    assert_eq!(g.snapshot().occupied[0], v(9, 9));
}

#[test]
fn boundary_left_wall() {
    let snake = vec![seg(1, 5, Direction::Left)];
    let mut g = Game::from_parts(default_settings(), snake, v(10, 10), 0, 5).unwrap();
    let o = g.tick(None);
    assert_eq!(o, Outcome::LeftBoard);
    assert!(g.game_over());
    assert_eq!(g.snapshot().occupied[0], v(0, 5));
}

#[test]
fn boundary_right_wall() {
    let snake = vec![seg(21, 5, Direction::Right)];
    let mut g = Game::from_parts(default_settings(), snake, v(10, 10), 0, 5).unwrap();
    assert_eq!(g.tick(None), Outcome::LeftBoard);
    assert_eq!(g.snapshot().occupied[0], v(22, 5));
}

#[test]
fn boundary_top_wall() {
    let snake = vec![seg(5, 1, Direction::Up)];
    let mut g = Game::from_parts(default_settings(), snake, v(10, 10), 0, 5).unwrap();
    assert_eq!(g.tick(None), Outcome::LeftBoard);
    assert_eq!(g.snapshot().occupied[0], v(5, 0));
}

#[test]
fn boundary_bottom_wall() {
    let snake = vec![seg(5, 17, Direction::Down)];
    let mut g = Game::from_parts(default_settings(), snake, v(10, 10), 0, 5).unwrap();
    assert_eq!(g.tick(None), Outcome::LeftBoard);
    assert_eq!(g.snapshot().occupied[0], v(5, 18));
}

#[test]
fn self_collision_is_detected() {
    // A U-shaped snake whose head turns into a cell the body still occupies
    // after this tick's propagation.
    let snake = vec![
        seg(5, 5, Direction::Down),
        seg(5, 6, Direction::Up),
        seg(6, 6, Direction::Left),
        seg(7, 6, Direction::Left),
        seg(7, 5, Direction::Down),
    ];
    let mut g = Game::from_parts(default_settings(), snake, v(1, 1), 0, 5).unwrap();
    let o = g.tick(None);
    assert_eq!(o, Outcome::SelfCollision);
    assert!(g.game_over());
}

#[test]
fn eating_grows_by_one_and_scores_one() {
    let snake = vec![
        seg(10, 9, Direction::Up),
        seg(10, 10, Direction::Up),
        seg(10, 11, Direction::Up),
    ];
    let mut g = Game::from_parts(default_settings(), snake, v(10, 8), 0, 5).unwrap();
    let o = g.tick(None);
    assert_eq!(o, Outcome::AteApple);
    assert_eq!(g.score(), 1);
    assert_eq!(g.snake_len(), 4);
    let s = g.snapshot();
    assert_eq!(s.occupied, vec![v(10, 8), v(10, 9), v(10, 10), v(10, 11)]);
    // The re-placed apple is on the board and avoids every cell that was
    // occupied at placement time: the moved head, the old body, and the
    // freshly grown tail cell.
    assert!(1 <= s.apple.x && s.apple.x <= 21);
    assert!(1 <= s.apple.y && s.apple.y <= 17);
    assert_ne!(s.apple, v(10, 8));
    assert_ne!(s.apple, v(10, 10));
    assert_ne!(s.apple, v(10, 11));
    assert_ne!(s.apple, v(10, 12));
}

#[test]
fn continue_tick_translates_straight_snake() {
    let snake = vec![
        seg(5, 5, Direction::Up),
        seg(5, 6, Direction::Up),
        seg(5, 7, Direction::Up),
    ];
    let mut g = Game::from_parts(default_settings(), snake, v(1, 1), 0, 5).unwrap();
    let before = g.snapshot();
    let o = g.tick(None);
    assert_eq!(o, Outcome::Continue);
    let after = g.snapshot();
    assert_eq!(after.occupied.len(), before.occupied.len());
    assert_eq!(after.score, before.score);
    // the occupied set is the old one translated one step Up
    for p in before.occupied.iter() {
        assert!(occupied_contains(&after.occupied, v(p.x, p.y - 1)));
    }
    assert_eq!(after.occupied, vec![v(5, 4), v(5, 5), v(5, 6)]);
}

#[test]
fn body_follows_head_around_corners() {
    let snake = vec![
        seg(5, 5, Direction::Up),
        seg(5, 6, Direction::Up),
        seg(5, 7, Direction::Up),
    ];
    let mut g = Game::from_parts(default_settings(), snake, v(1, 1), 0, 5).unwrap();
    assert_eq!(g.tick(Some(Direction::Right)), Outcome::Continue);
    assert_eq!(g.snapshot().occupied, vec![v(6, 5), v(5, 5), v(5, 6)]);
    assert_eq!(g.tick(None), Outcome::Continue);
    assert_eq!(g.snapshot().occupied, vec![v(7, 5), v(6, 5), v(5, 5)]);
    assert_eq!(g.tick(Some(Direction::Down)), Outcome::Continue);
    assert_eq!(g.snapshot().occupied, vec![v(7, 6), v(7, 5), v(6, 5)]);
}

#[test]
fn board_full_ends_the_game() {
    // A snake wound so that, after it eats the last free-looking cell, every
    // playable cell of the 2 by 2 board is occupied at placement time.
    let settings = Settings {
        board_size: v(2, 2),
        min_len: 1,
        tick_ms: 1,
    };
    let snake = vec![
        seg(1, 1, Direction::Down),
        seg(1, 2, Direction::Up),
        seg(2, 2, Direction::Left),
        seg(3, 2, Direction::Left),
        seg(3, 1, Direction::Down),
        seg(2, 1, Direction::Right),
    ];
    let mut g = Game::from_parts(settings, snake, v(1, 2), 0, 5).unwrap();
    let o = g.tick(None);
    assert_eq!(o, Outcome::BoardFull);
    assert!(g.game_over());
    assert_eq!(g.score(), 1);
    assert_eq!(g.snake_len(), 7);
    // the apple could not be re-placed
    assert_eq!(g.snapshot().apple, v(1, 2));
}

#[test]
fn from_parts_rejects_invalid_states() {
    // broken chain: the second segment does not move onto the first
    let snake = vec![seg(5, 5, Direction::Up), seg(9, 9, Direction::Up)];
    assert!(Game::from_parts(default_settings(), snake, v(1, 1), 0, 5).is_none());
    // apple on the head
    let snake = vec![seg(5, 5, Direction::Up)];
    assert!(Game::from_parts(default_settings(), snake, v(5, 5), 0, 5).is_none());
    // score not below the length
    let snake = vec![seg(5, 5, Direction::Up)];
    assert!(Game::from_parts(default_settings(), snake, v(1, 1), 1, 5).is_none());
    // head off the board
    let snake = vec![seg(0, 5, Direction::Up)];
    assert!(Game::from_parts(default_settings(), snake, v(1, 1), 0, 5).is_none());
    // empty snake
    assert!(Game::from_parts(default_settings(), Vec::new(), v(1, 1), 0, 5).is_none());
    // a valid state is accepted
    let snake = vec![seg(5, 5, Direction::Up), seg(5, 6, Direction::Up)];
    assert!(Game::from_parts(default_settings(), snake, v(1, 1), 0, 5).is_some());
}

#[test]
fn apples_stay_off_the_snake_over_many_ticks() {
    // Drive a game for a while; after every tick the apple sits on the board,
    // and immediately after a placement it avoids the head's new cell.
    let mut g = Game::new(default_settings(), 3).unwrap();
    for _ in 0..200 {
        let o = g.tick(None);
        let s = g.snapshot();
        assert!(1 <= s.apple.x && s.apple.x <= 21);
        assert!(1 <= s.apple.y && s.apple.y <= 17);
        assert_ne!(s.apple, s.occupied[0]);
        match o {
            Outcome::Continue | Outcome::AteApple => {}
            _ => break,
        }
    }
}

#[test]
fn opposite_directions_pair_up() {
    assert_eq!(Direction::Up.opposite(), Direction::Down);
    assert_eq!(Direction::Down.opposite(), Direction::Up);
    assert_eq!(Direction::Left.opposite(), Direction::Right);
    assert_eq!(Direction::Right.opposite(), Direction::Left);
}

#[test]
fn move_direction_translates_one_unit() {
    let mut p = v(5, 5);
    p.move_direction(Direction::Up);
    assert_eq!(p, v(5, 4));
    p.move_direction(Direction::Down);
    assert_eq!(p, v(5, 5));
    p.move_direction(Direction::Left);
    assert_eq!(p, v(4, 5));
    p.move_direction(Direction::Right);
    assert_eq!(p, v(5, 5));
}

#[test]
fn move_square_follows_stored_direction() {
    let mut b = seg(5, 5, Direction::Right);
    b.move_square();
    assert_eq!(b.pos, v(6, 5));
    assert_eq!(b.direction, Direction::Right);
}

#[test]
fn snake_left_board_checks_sentinels() {
    let snake = vec![seg(5, 5, Direction::Up)];
    let g = Game::from_parts(default_settings(), snake, v(1, 1), 0, 5).unwrap();
    assert!(!g.snake_left_board());
}

#[test]
fn eating_during_ramp_uses_double_displacement() {
    // A single-segment snake eats on its first move: the grown segment is
    // displaced twice (a lone head has no trailing history), the top-up adds
    // one more, and propagation lines all three up behind the head.
    let snake = vec![seg(10, 9, Direction::Up)];
    let mut g = Game::from_parts(default_settings(), snake, v(10, 8), 0, 11).unwrap();
    let o = g.tick(None);
    assert_eq!(o, Outcome::AteApple);
    assert_eq!(g.score(), 1);
    assert_eq!(g.snake_len(), 3);
    assert_eq!(g.snapshot().occupied, vec![v(10, 8), v(10, 9), v(10, 10)]);
}

#[test]
fn intent_along_current_direction_is_accepted() {
    let snake = vec![
        seg(10, 9, Direction::Up),
        seg(10, 10, Direction::Up),
        seg(10, 11, Direction::Up),
    ];
    let mut g = Game::from_parts(default_settings(), snake, v(1, 1), 0, 5).unwrap();
    assert_eq!(g.tick(Some(Direction::Up)), Outcome::Continue);
    assert_eq!(g.head_direction(), Direction::Up);
    assert_eq!(g.snapshot().occupied[0], v(10, 8));
}
