//! The game state machine: snake body chain, apple, score, and the per-tick
//! update rule.

use vstd::prelude::*;

use crate::geometry::{Direction, SnakeBody, Vec2};
use crate::rng::{rng_from_seed, rng_range};

verus! {

/// Largest accepted board side.  Keeps every coordinate computation far away
/// from the limits of `i64`.
pub const MAX_BOARD: i64 = 1024;

/// Hard machine limit on the number of segments a ticked snake may hold, so
/// that per-segment coordinate bounds stay comfortably inside `i64`.
pub const LEN_CAP: usize = 0x1000_0000;

/// How many random samples apple placement tries before falling back to a
/// deterministic scan of the board.
pub const APPLE_RETRIES: usize = 64;

/// Configuration of a game.
#[derive(Clone, Copy, PartialEq, Eq, Structural, Debug)]
pub struct Settings {
    /// Playable cells run from 1 to `board_size.x` and 1 to `board_size.y`.
    pub board_size: Vec2,
    /// The snake grows toward this length even without eating.
    pub min_len: usize,
    /// Time between snake movements in milliseconds; smaller is faster.
    pub tick_ms: u64,
}

/// The reason a game could not be constructed.
#[derive(Clone, Copy, PartialEq, Eq, Structural, Debug)]
pub enum ConfigError {
    InvalidConfiguration,
}

/// What a tick reported.  `LeftBoard`, `SelfCollision` and `BoardFull` are
/// terminal: the driver must stop ticking.
#[derive(Clone, Copy, PartialEq, Eq, Structural, Debug)]
pub enum Outcome {
    Continue,
    AteApple,
    LeftBoard,
    SelfCollision,
    BoardFull,
}

/// Read-only view of a state, for a renderer.
pub struct Snapshot {
    pub score: u64,
    /// Occupied cells, head first.
    pub occupied: Vec<Vec2>,
    pub apple: Vec2,
    pub board_size: Vec2,
}

/// `p` is one of the playable cells of a board with side lengths `board`.
pub open spec fn in_board(p: Vec2, board: Vec2) -> bool {
    &&& 1 <= p.x <= board.x
    &&& 1 <= p.y <= board.y
}

/// `p` sits on one of the out-of-bounds sentinel lines of the board.
pub open spec fn hits_wall(p: Vec2, board: Vec2) -> bool {
    ||| p.x == 0
    ||| p.x == board.x + 1
    ||| p.y == 0
    ||| p.y == board.y + 1
}

/// The configuration a game can be built from: a positive minimum length, a
/// board at least that large (and at least 2 wide so the starting cell is
/// playable, at most `MAX_BOARD`), and a positive tick interval.
pub open spec fn config_ok(s: Settings) -> bool {
    &&& 1 <= s.min_len
    &&& s.min_len <= s.board_size.x
    &&& s.min_len <= s.board_size.y
    &&& 2 <= s.board_size.x <= MAX_BOARD
    &&& 2 <= s.board_size.y <= MAX_BOARD
    &&& 1 <= s.tick_ms
}

/// Every non-head segment, advanced one cell along its stored direction,
/// lands exactly on the segment in front of it: the body is a connected chain
/// that will trace the head's path.
pub open spec fn chain_ok(segs: Seq<SnakeBody>) -> bool {
    forall|i: int|
        1 <= i < segs.len() ==> (#[trigger] segs[i]).pos.moved(segs[i].direction) == segs[i
            - 1].pos
}

/// Coordinate bound on one cell: within the board extended by a margin that
/// grows with the snake, which is what transient growth displacement needs.
pub open spec fn coord_in_range(p: Vec2, board: Vec2, len: int) -> bool {
    &&& -(2 * len + 2) <= p.x <= board.x + 2 * len + 2
    &&& -(2 * len + 2) <= p.y <= board.y + 2 * len + 2
}

/// Coordinate bounds for every segment.
pub open spec fn coords_ok(segs: Seq<SnakeBody>, board: Vec2) -> bool {
    forall|i: int|
        0 <= i < segs.len() ==> coord_in_range((#[trigger] segs[i]).pos, board, segs.len() as int)
}

/// Everything that holds of a live (not yet terminal) state: valid
/// configuration, a bounded non-empty chain-connected body whose head is on
/// the board, a score strictly below the length, and an apple on the board
/// away from the head.
pub open spec fn state_ok(s: Settings, segs: Seq<SnakeBody>, apple: Vec2, score: u64) -> bool {
    &&& config_ok(s)
    &&& 1 <= segs.len() <= LEN_CAP
    &&& (score as int) < segs.len()
    &&& in_board(segs[0].pos, s.board_size)
    &&& chain_ok(segs)
    &&& coords_ok(segs, s.board_size)
    &&& in_board(apple, s.board_size)
    &&& apple != segs[0].pos
}

/// The authoritative game state.  All mutation goes through `tick`; the
/// renderer reads `snapshot`.
pub struct Game {
    score: u64,
    snake: Vec<SnakeBody>,
    apple: Vec2,
    rng: rand::rngs::SmallRng,
    settings: Settings,
    over: bool,
}

impl Game {
    pub closed spec fn score_spec(self) -> u64 {
        self.score
    }

    pub closed spec fn segs(self) -> Seq<SnakeBody> {
        self.snake@
    }

    pub closed spec fn apple_spec(self) -> Vec2 {
        self.apple
    }

    pub closed spec fn settings_spec(self) -> Settings {
        self.settings
    }

    pub closed spec fn over_spec(self) -> bool {
        self.over
    }

    /// The cells the snake occupies, head first.
    pub open spec fn pos_seq(self) -> Seq<Vec2> {
        self.segs().map_values(|b: SnakeBody| b.pos)
    }

    pub open spec fn head(self) -> SnakeBody {
        self.segs()[0]
    }

    /// Some cell of the snake sits on `p`.
    pub open spec fn occupies(self, p: Vec2) -> bool {
        exists|i: int| 0 <= i < self.segs().len() && (#[trigger] self.segs()[i]).pos == p
    }

    /// The state invariant.  While the game is live the full `state_ok`
    /// holds; a terminal state keeps only the structural bounds (it is never
    /// ticked again).
    pub open spec fn inv(self) -> bool {
        &&& config_ok(self.settings_spec())
        &&& 1 <= self.segs().len() <= LEN_CAP
        &&& (self.score_spec() as int) < self.segs().len()
        &&& (!self.over_spec() ==> state_ok(
            self.settings_spec(),
            self.segs(),
            self.apple_spec(),
            self.score_spec(),
        ))
    }

    /// The head direction after the intent of this tick is applied: a
    /// supplied direction is taken unless it is the exact opposite of the
    /// current head direction.
    pub open spec fn dir_after(self, intent: Option<Direction>) -> Direction {
        match intent {
            Some(d) => if d == self.head().direction.opposite_spec() {
                self.head().direction
            } else {
                d
            },
            None => self.head().direction,
        }
    }

    /// Where the head lands this tick.
    pub open spec fn head_after(self, intent: Option<Direction>) -> Vec2 {
        self.head().pos.moved(self.dir_after(intent))
    }

    /// The tick eats the apple exactly when the moved head lands on it.
    pub open spec fn eats(self, intent: Option<Direction>) -> bool {
        self.head_after(intent) == self.apple_spec()
    }

    /// The stored direction of the tail at the moment growth duplicates it.
    /// A single-segment snake's tail is its head, whose direction has already
    /// been updated by the intent.
    pub open spec fn grow_dir(self, intent: Option<Direction>) -> Direction {
        if self.segs().len() == 1 {
            self.dir_after(intent)
        } else {
            self.segs().last().direction
        }
    }

    /// The cell the first segment grown this tick is put on: one cell behind
    /// the tail, or two cells behind the moved head when the snake was a
    /// single segment (which has no trailing history yet).
    pub open spec fn first_grown_cell(self, intent: Option<Direction>) -> Vec2 {
        let od = self.grow_dir(intent).opposite_spec();
        if self.segs().len() == 1 {
            self.head_after(intent).moved(od).moved(od)
        } else {
            self.segs().last().pos.moved(od)
        }
    }

    /// The cell a second grown segment (apple growth followed by the
    /// minimum-length top-up) is put on.
    pub open spec fn second_grown_cell(self, intent: Option<Direction>) -> Vec2 {
        self.first_grown_cell(intent).moved(self.grow_dir(intent).opposite_spec())
    }

    /// `p` is occupied at the moment the apple is re-placed this tick: by the
    /// moved head, by the not-yet-propagated body, or by the segment apple
    /// growth just appended.
    pub open spec fn placement_blocked(self, intent: Option<Direction>, p: Vec2) -> bool {
        ||| p == self.head_after(intent)
        ||| exists|i: int| 1 <= i < self.segs().len() && (#[trigger] self.segs()[i]).pos == p
        ||| p == self.first_grown_cell(intent)
    }

    /// The tick eats the apple but no playable cell is free at placement
    /// time, so no new apple can be placed: the board is full.
    #[verifier::opaque]
    pub open spec fn board_full_after(self, intent: Option<Direction>) -> bool {
        &&& self.eats(intent)
        &&& forall|p: Vec2|
            in_board(p, self.settings_spec().board_size) ==> self.placement_blocked(intent, p)
    }

    /// Number of segments apple consumption adds this tick.
    pub open spec fn grow1(self, intent: Option<Direction>) -> int {
        if self.eats(intent) {
            1
        } else {
            0
        }
    }

    /// Number of segments the minimum-length top-up adds this tick.
    pub open spec fn grow2(self, intent: Option<Direction>) -> int {
        if !self.board_full_after(intent) && self.segs().len() + self.grow1(intent)
            < self.settings_spec().min_len {
            1
        } else {
            0
        }
    }

    pub open spec fn grown_total(self, intent: Option<Direction>) -> int {
        self.grow1(intent) + self.grow2(intent)
    }

    /// The snake's length when the tick is done.
    pub open spec fn len_after(self, intent: Option<Direction>) -> int {
        self.segs().len() + self.grown_total(intent)
    }

    /// The score when the tick is done.
    pub open spec fn score_after(self, intent: Option<Direction>) -> int {
        self.score_spec() + self.grow1(intent)
    }

    /// The cells the non-head segments sit on once body propagation has run:
    /// every segment lands on the cell of its predecessor, so the body's
    /// cells are the snake's previous cells, extended to the first grown cell
    /// when two segments were added.
    #[verifier::opaque]
    pub open spec fn body_targets(self, intent: Option<Direction>) -> Seq<Vec2> {
        let p = self.pos_seq();
        let g = self.grown_total(intent);
        if g == 0 {
            p.take(p.len() - 1)
        } else if g == 1 {
            p
        } else {
            p.push(self.first_grown_cell(intent))
        }
    }

    /// The moved head runs into the moved body.
    #[verifier::opaque]
    pub open spec fn collides(self, intent: Option<Direction>) -> bool {
        self.body_targets(intent).contains(self.head_after(intent))
    }

    /// The outcome a tick on this state reports.
    pub open spec fn outcome_after(self, intent: Option<Direction>) -> Outcome {
        if self.board_full_after(intent) {
            Outcome::BoardFull
        } else if hits_wall(self.head_after(intent), self.settings_spec().board_size) {
            Outcome::LeftBoard
        } else if self.collides(intent) {
            Outcome::SelfCollision
        } else if self.eats(intent) {
            Outcome::AteApple
        } else {
            Outcome::Continue
        }
    }

    pub fn game_over(&self) -> (r: bool)
        ensures
            r == self.over_spec(),
    {
        self.over
    }

    pub fn score(&self) -> (r: u64)
        ensures
            r == self.score_spec(),
    {
        self.score
    }

    pub fn snake_len(&self) -> (r: usize)
        ensures
            r == self.segs().len(),
    {
        self.snake.len()
    }

    pub fn head_direction(&self) -> (r: Direction)
        requires
            self.segs().len() >= 1,
        ensures
            r == self.head().direction,
    {
        self.snake[0].direction
    }

    pub fn settings(&self) -> (s: Settings)
        ensures
            s == self.settings_spec(),
    {
        self.settings
    }

    /// True exactly when the head stands on a sentinel line of the board.
    pub fn snake_left_board(&self) -> (r: bool)
        requires
            self.segs().len() >= 1,
            self.settings_spec().board_size.x < i64::MAX,
            self.settings_spec().board_size.y < i64::MAX,
        ensures
            r == hits_wall(self.head().pos, self.settings_spec().board_size),
    {
        let snake_head = self.snake[0];
        let board_size = self.settings.board_size;
        snake_head.pos.x == board_size.x + 1 || snake_head.pos.x == 0 || snake_head.pos.y
            == board_size.y + 1 || snake_head.pos.y == 0
    }

    /// Read-only view for the renderer: score, occupied cells head first,
    /// apple, board size.
    pub fn snapshot(&self) -> (s: Snapshot)
        ensures
            s.score == self.score_spec(),
            s.occupied@ == self.pos_seq(),
            s.apple == self.apple_spec(),
            s.board_size == self.settings_spec().board_size,
    {
        let mut occupied: Vec<Vec2> = Vec::new();
        let mut i: usize = 0;
        while i < self.snake.len()
            invariant
                i <= self.segs().len(),
                occupied@ == self.pos_seq().take(i as int),
            decreases self.segs().len() - i,
        {
            occupied.push(self.snake[i].pos);
            proof {
                assert(occupied@ =~= self.pos_seq().take(i + 1));
            }
            i = i + 1;
        }
        proof {
            assert(occupied@ =~= self.pos_seq());
        }
        Snapshot {
            score: self.score,
            occupied,
            apple: self.apple,
            board_size: self.settings.board_size,
        }
    }
}

impl Game {
    /// Duplicates the tail segment and moves the duplicate one cell opposite
    /// to its stored direction, extending the body backward.  When the snake
    /// was a single segment the displacement is applied twice, because a
    /// lone head has no trailing direction history yet.
    fn grow_snake(&mut self)
        requires
            1 <= old(self).segs().len(),
            old(self).segs().len() < usize::MAX,
            i64::MIN + 4 < old(self).segs().last().pos.x < i64::MAX - 4,
            i64::MIN + 4 < old(self).segs().last().pos.y < i64::MAX - 4,
        ensures
            ({
                let t = old(self).segs().last();
                let od = t.direction.opposite_spec();
                let grown = SnakeBody {
                    pos: if old(self).segs().len() == 1 {
                        t.pos.moved(od).moved(od)
                    } else {
                        t.pos.moved(od)
                    },
                    direction: t.direction,
                };
                final(self).segs() == old(self).segs().push(grown)
            }),
            final(self).score_spec() == old(self).score_spec(),
            final(self).apple_spec() == old(self).apple_spec(),
            final(self).settings_spec() == old(self).settings_spec(),
            final(self).over_spec() == old(self).over_spec(),
    {
        let n = self.snake.len();
        let tail = self.snake[n - 1];
        self.snake.push(tail);
        let mut t = self.snake[n];
        let od = t.direction.opposite();
        t.pos.move_direction(od);
        if n == 1 {
            t.pos.move_direction(od);
        }
        self.snake[n] = t;
        proof {
            assert(final(self).segs() =~= old(self).segs().push(t));
        }
    }

    /// Re-places the apple on a free playable cell: first by random sampling,
    /// then, if the retry budget runs out, by scanning the board.  Returns
    /// false (leaving the apple untouched) exactly when no playable cell is
    /// free.  The snake, score and settings are untouched.
    fn place_apple(&mut self) -> (placed: bool)
        requires
            1 <= old(self).settings_spec().board_size.x <= MAX_BOARD,
            1 <= old(self).settings_spec().board_size.y <= MAX_BOARD,
        ensures
            final(self).segs() == old(self).segs(),
            final(self).score_spec() == old(self).score_spec(),
            final(self).settings_spec() == old(self).settings_spec(),
            final(self).over_spec() == old(self).over_spec(),
            placed == exists|p: Vec2|
                in_board(p, old(self).settings_spec().board_size) && !old(self).occupies(p),
            placed ==> in_board(final(self).apple_spec(), old(self).settings_spec().board_size)
                && !old(self).occupies(final(self).apple_spec()),
            !placed ==> final(self).apple_spec() == old(self).apple_spec(),
    {
        let bx = self.settings.board_size.x;
        let by = self.settings.board_size.y;
        let mut attempt: usize = 0;
        while attempt < APPLE_RETRIES
            invariant
                self.segs() == old(self).segs(),
                self.score_spec() == old(self).score_spec(),
                self.settings_spec() == old(self).settings_spec(),
                self.over_spec() == old(self).over_spec(),
                self.apple_spec() == old(self).apple_spec(),
                bx == self.settings_spec().board_size.x,
                by == self.settings_spec().board_size.y,
                1 <= bx <= MAX_BOARD,
                1 <= by <= MAX_BOARD,
            decreases APPLE_RETRIES - attempt,
        {
            let x = rng_range(&mut self.rng, 1, bx);
            let y = rng_range(&mut self.rng, 1, by);
            let cand = Vec2 { x, y };
            if !pos_on_snake(&self.snake, cand) {
                self.apple = cand;
                proof {
                    assert(in_board(cand, old(self).settings_spec().board_size) && !old(
                        self,
                    ).occupies(cand));
                }
                return true;
            }
            attempt = attempt + 1;
        }
        let mut x: i64 = 1;
        while x <= bx
            invariant
                1 <= x <= bx + 1,
                self.segs() == old(self).segs(),
                self.score_spec() == old(self).score_spec(),
                self.settings_spec() == old(self).settings_spec(),
                self.over_spec() == old(self).over_spec(),
                self.apple_spec() == old(self).apple_spec(),
                bx == self.settings_spec().board_size.x,
                by == self.settings_spec().board_size.y,
                1 <= bx <= MAX_BOARD,
                1 <= by <= MAX_BOARD,
                forall|p: Vec2|
                    in_board(p, self.settings_spec().board_size) && p.x < x ==> self.occupies(p),
            decreases bx + 1 - x,
        {
            let mut y: i64 = 1;
            while y <= by
                invariant
                    1 <= x <= bx,
                    1 <= y <= by + 1,
                    self.segs() == old(self).segs(),
                    self.score_spec() == old(self).score_spec(),
                    self.settings_spec() == old(self).settings_spec(),
                    self.over_spec() == old(self).over_spec(),
                    self.apple_spec() == old(self).apple_spec(),
                    bx == self.settings_spec().board_size.x,
                    by == self.settings_spec().board_size.y,
                    1 <= bx <= MAX_BOARD,
                    1 <= by <= MAX_BOARD,
                    forall|p: Vec2|
                        in_board(p, self.settings_spec().board_size) && p.x < x
                            ==> self.occupies(p),
                    forall|p: Vec2|
                        in_board(p, self.settings_spec().board_size) && p.x == x && p.y < y
                            ==> self.occupies(p),
                decreases by + 1 - y,
            {
                let cand = Vec2 { x, y };
                if !pos_on_snake(&self.snake, cand) {
                    self.apple = cand;
                    proof {
                        assert(in_board(cand, old(self).settings_spec().board_size) && !old(
                            self,
                        ).occupies(cand));
                    }
                    return true;
                }
                y = y + 1;
            }
            x = x + 1;
        }
        proof {
            assert forall|p: Vec2|
                in_board(p, old(self).settings_spec().board_size) implies old(self).occupies(
                p,
            ) by {
                assert(self.occupies(p));
                let i = choose|i: int|
                    0 <= i < self.segs().len() && (#[trigger] self.segs()[i]).pos == p;
                assert((old(self).segs()[i]).pos == p);
            }
        }
        false
    }
}

impl Game {
    /// Starts a new game: a single-segment snake on the centre cell facing
    /// Up, score zero, and a randomly placed apple on a free cell.  Rejects a
    /// configuration that `config_ok` refuses, and nothing else.
    pub fn new(settings: Settings, seed: u64) -> (r: Result<Game, ConfigError>)
        ensures
            r is Ok <==> config_ok(settings),
            r is Err ==> r == Result::<Game, ConfigError>::Err(ConfigError::InvalidConfiguration),
            r is Ok ==> ({
                let g = r->Ok_0;
                &&& g.inv()
                &&& !g.over_spec()
                &&& g.settings_spec() == settings
                &&& g.score_spec() == 0
                &&& g.segs().len() == 1
                &&& g.head() == (SnakeBody {
                    pos: Vec2 {
                        x: (settings.board_size.x / 2 + 1) as i64,
                        y: (settings.board_size.y / 2 + 1) as i64,
                    },
                    direction: Direction::Up,
                })
                &&& in_board(g.apple_spec(), settings.board_size)
                &&& g.apple_spec() != g.head().pos
            }),
    {
        let ok = settings.min_len >= 1 && settings.board_size.x >= 2 && settings.board_size.y >= 2
            && settings.board_size.x <= MAX_BOARD && settings.board_size.y <= MAX_BOARD
            && settings.min_len <= (settings.board_size.x as usize) && settings.min_len <= (
        settings.board_size.y as usize) && settings.tick_ms >= 1;
        if !ok {
            return Err(ConfigError::InvalidConfiguration);
        }
        let centre = Vec2 {
            x: settings.board_size.x / 2 + 1,
            y: settings.board_size.y / 2 + 1,
        };
        let head = SnakeBody { pos: centre, direction: Direction::Up };
        let mut snake: Vec<SnakeBody> = Vec::new();
        snake.push(head);
        let mut g = Game {
            score: 0,
            snake,
            apple: centre,
            rng: rng_from_seed(seed),
            settings,
            over: false,
        };
        proof {
            // Two distinct cells of the first column are playable, and a
            // single-segment snake covers at most one of them.
            assert(g.segs()[0] == head);
            let c1 = Vec2 { x: 1, y: 1 };
            let c2 = Vec2 { x: 1, y: 2 };
            if centre != c1 {
                assert(in_board(c1, settings.board_size) && !g.occupies(c1));
            } else {
                assert(in_board(c2, settings.board_size) && !g.occupies(c2));
            }
        }
        let placed = g.place_apple();
        assert(placed);
        proof {
            assert(g.segs()[0] == head);
        }
        Ok(g)
    }
}

impl Game {
    /// Builds a live game from explicit parts, accepting them exactly when
    /// they satisfy the live-state invariant.  This is the injectable way to
    /// reach a chosen position, e.g. in a test scenario.
    #[verifier::rlimit(60)]
    pub fn from_parts(settings: Settings, snake: Vec<SnakeBody>, apple: Vec2, score: u64, seed: u64) -> (r:
        Option<Game>)
        ensures
            r is Some <==> state_ok(settings, snake@, apple, score),
            r is Some ==> ({
                let g = r->0;
                &&& g.inv()
                &&& !g.over_spec()
                &&& g.settings_spec() == settings
                &&& g.segs() == snake@
                &&& g.apple_spec() == apple
                &&& g.score_spec() == score
            }),
    {
        let ok = settings.min_len >= 1 && settings.board_size.x >= 2 && settings.board_size.y >= 2
            && settings.board_size.x <= MAX_BOARD && settings.board_size.y <= MAX_BOARD
            && settings.min_len <= (settings.board_size.x as usize) && settings.min_len <= (
        settings.board_size.y as usize) && settings.tick_ms >= 1;
        if !ok {
            return None;
        }
        if !(snake.len() >= 1 && snake.len() <= LEN_CAP) {
            return None;
        }
        if !(score < snake.len() as u64) {
            return None;
        }
        let b = settings.board_size;
        let h = snake[0].pos;
        if !(1 <= h.x && h.x <= b.x && 1 <= h.y && h.y <= b.y) {
            return None;
        }
        if !check_coords(&snake, b) {
            return None;
        }
        proof {
            assert forall|j: int|
                0 <= j < snake@.len() implies i64::MIN + 4 < (#[trigger] snake@[j]).pos.x
                < i64::MAX - 4 && i64::MIN + 4 < snake@[j].pos.y < i64::MAX - 4 by {
                assert(coord_in_range(snake@[j].pos, b, snake@.len() as int));
            }
        }
        if !check_chain(&snake) {
            return None;
        }
        if !(1 <= apple.x && apple.x <= b.x && 1 <= apple.y && apple.y <= b.y) {
            return None;
        }
        if apple.x == h.x && apple.y == h.y {
            return None;
        }
        Some(
            Game {
                score,
                snake,
                apple,
                rng: rng_from_seed(seed),
                settings,
                over: false,
            },
        )
    }
}

impl Game {
    /// Advances the game by one tick: applies the directional intent to the
    /// head (rejecting a reversal), moves the head one cell, handles apple
    /// consumption and the minimum-length top-up, checks the boundary, then
    /// propagates the body along the head's path, shifting each stored
    /// direction one segment backward.  Reports exactly the outcome
    /// `outcome_after` describes, and the new state is pinned down by the
    /// clauses below.
    #[verifier::loop_isolation(false)]
    #[verifier::rlimit(100)]
    pub fn tick(&mut self, intent: Option<Direction>) -> (r: Outcome)
        requires
            old(self).inv(),
            !old(self).over_spec(),
            old(self).segs().len() + 2 <= LEN_CAP,
        ensures
            final(self).inv(),
            r == old(self).outcome_after(intent),
            final(self).over_spec() == (r != Outcome::Continue && r != Outcome::AteApple),
            final(self).settings_spec() == old(self).settings_spec(),
            final(self).score_spec() == old(self).score_after(intent),
            final(self).segs().len() == old(self).len_after(intent),
            final(self).head().direction == old(self).dir_after(intent),
            final(self).head().pos == old(self).head_after(intent),
            (r == Outcome::Continue || r == Outcome::AteApple) ==> final(self).pos_seq() == seq![
                old(self).head_after(intent),
            ] + old(self).body_targets(intent),
            !old(self).eats(intent) ==> final(self).apple_spec() == old(self).apple_spec(),
            old(self).eats(intent) && r != Outcome::BoardFull ==> in_board(
                final(self).apple_spec(),
                old(self).settings_spec().board_size,
            ) && !old(self).placement_blocked(intent, final(self).apple_spec()),
            r == Outcome::BoardFull ==> final(self).apple_spec() == old(self).apple_spec(),
    {
        let ghost g0 = *old(self);
        let ghost n = g0.segs().len() as int;
        let ghost b = g0.settings_spec().board_size;

        // Step 1 and 2: update the head's direction from the intent, then
        // advance the head one cell.
        let cur = self.snake[0].direction;
        let newd = match intent {
            Some(d) => if d == cur.opposite() {
                cur
            } else {
                d
            },
            None => cur,
        };
        let mut h = self.snake[0];
        h.direction = newd;
        h.move_square();
        self.snake[0] = h;
        proof {
            assert(newd == g0.dir_after(intent));
            assert(h.pos == g0.head_after(intent));
            assert(self.segs() =~= g0.segs().update(0, h));
        }

        // Step 3: apple consumption.
        let ate = h.pos == self.apple;
        proof {
            assert(ate == g0.eats(intent));
        }
        if ate {
            let placed = self.consume_apple(h, Ghost(g0), Ghost(intent));
            if !placed {
                self.over = true;
                proof {
                    assert(g0.grow2(intent) == 0);
                    assert(self.segs()[0] == h);
                }
                return Outcome::BoardFull;
            }
        }
        proof {
            if !ate {
                reveal(Game::board_full_after);
            }
            assert(!g0.board_full_after(intent));
        }

        // Step 4: minimum-length top-up.
        if self.snake.len() < self.settings.min_len {
            proof {
                if !ate && n >= 2 {
                    assert(self.segs().last() == g0.segs().last());
                    assert(coord_in_range(g0.segs()[n - 1].pos, b, n));
                }
                if !ate && n == 1 {
                    assert(self.segs().last() == h);
                    assert(in_board(g0.segs()[0].pos, b));
                }
                if ate {
                    if n >= 2 {
                        assert(coord_in_range(g0.segs()[n - 1].pos, b, n));
                    }
                    assert(coord_in_range_wide(self.segs().last().pos, g0, intent));
                }
            }
            self.grow_snake();
            proof {
                if ate {
                    assert(self.segs().last() == (SnakeBody {
                        pos: g0.second_grown_cell(intent),
                        direction: g0.grow_dir(intent),
                    }));
                } else {
                    assert(self.segs().last() == (SnakeBody {
                        pos: g0.first_grown_cell(intent),
                        direction: g0.grow_dir(intent),
                    }));
                }
                assert(g0.grow2(intent) == 1);
            }
        } else {
            proof {
                assert(g0.grow2(intent) == 0);
            }
        }

        proof {
            assert(self.segs().len() == g0.len_after(intent));
            assert(self.segs()[0] == h);
        }

        // Step 5: boundary check.  A terminal tick leaves the body alone.
        if self.snake_left_board() {
            self.over = true;
            return Outcome::LeftBoard;
        }

        // Step 6 and 7: body propagation with the carried direction, and the
        // self-collision check against each segment as it lands.
        let collided = self.propagate_body(h, Ghost(g0), Ghost(intent));
        if collided {
            self.over = true;
            return Outcome::SelfCollision;
        }
        proof {
            assert(in_board(h.pos, b));
            assert(state_ok(
                self.settings_spec(),
                self.segs(),
                self.apple_spec(),
                self.score_spec(),
            ));
        }
        if ate {
            Outcome::AteApple
        } else {
            Outcome::Continue
        }
    }
}

impl Game {
    /// Step 3 of a tick, after the head has already moved onto the apple:
    /// counts the apple, grows the snake by one segment, and re-places the
    /// apple on a cell that is free at this moment.  Returns false exactly
    /// when every playable cell is occupied right now, in which case the
    /// apple is left alone.
    #[verifier::rlimit(100)]
    fn consume_apple(
        &mut self,
        h: SnakeBody,
        Ghost(g0): Ghost<Game>,
        Ghost(intent): Ghost<Option<Direction>>,
    ) -> (placed: bool)
        requires
            g0.inv(),
            !g0.over_spec(),
            g0.segs().len() + 2 <= LEN_CAP,
            g0.eats(intent),
            old(self).segs() == g0.segs().update(0, h),
            h.pos == g0.head_after(intent),
            h.direction == g0.dir_after(intent),
            old(self).score_spec() == g0.score_spec(),
            old(self).settings_spec() == g0.settings_spec(),
            old(self).apple_spec() == g0.apple_spec(),
            old(self).over_spec() == false,
        ensures
            final(self).segs() == old(self).segs().push(
                SnakeBody { pos: g0.first_grown_cell(intent), direction: g0.grow_dir(intent) },
            ),
            final(self).score_spec() == g0.score_spec() + 1,
            final(self).settings_spec() == g0.settings_spec(),
            final(self).over_spec() == false,
            placed == !g0.board_full_after(intent),
            placed ==> in_board(final(self).apple_spec(), g0.settings_spec().board_size)
                && !g0.placement_blocked(intent, final(self).apple_spec()),
            !placed ==> final(self).apple_spec() == g0.apple_spec(),
    {
        let ghost n = g0.segs().len() as int;
        let ghost b = g0.settings_spec().board_size;
        self.score = self.score + 1;
        proof {
            if n >= 2 {
                assert(self.segs().last() == g0.segs().last());
                assert(coord_in_range(g0.segs()[n - 1].pos, b, n));
            }
        }
        self.grow_snake();
        proof {
            assert(self.segs().last() == (SnakeBody {
                pos: g0.first_grown_cell(intent),
                direction: g0.grow_dir(intent),
            }));
        }
        let ghost bst = *self;
        let placed = self.place_apple();
        proof {
            reveal(Game::board_full_after);
            assert forall|p: Vec2| bst.occupies(p) <==> g0.placement_blocked(intent, p) by {
                if bst.occupies(p) {
                    let i = choose|i: int|
                        0 <= i < bst.segs().len() && (#[trigger] bst.segs()[i]).pos == p;
                    if i == 0 {
                        assert(p == g0.head_after(intent));
                    } else if i < n {
                        assert(g0.segs()[i].pos == p);
                    } else {
                        assert(p == g0.first_grown_cell(intent));
                    }
                }
                if g0.placement_blocked(intent, p) {
                    if p == g0.head_after(intent) {
                        assert(bst.segs()[0].pos == p);
                    } else if exists|i: int| 1 <= i < n && (#[trigger] g0.segs()[i]).pos == p {
                        let i = choose|i: int| 1 <= i < n && (#[trigger] g0.segs()[i]).pos == p;
                        assert(bst.segs()[i].pos == p);
                    } else {
                        assert(bst.segs()[n].pos == p);
                    }
                }
            }
            if placed {
                assert(!g0.placement_blocked(intent, self.apple_spec()));
                assert(!g0.board_full_after(intent)) by {
                    let w = choose|p: Vec2| in_board(p, b) && !bst.occupies(p);
                    assert(in_board(w, b) && !g0.placement_blocked(intent, w));
                }
            } else {
                assert forall|p: Vec2| in_board(p, b) implies g0.placement_blocked(
                    intent,
                    p,
                ) by {
                    if !bst.occupies(p) {
                        assert(in_board(p, b) && !bst.occupies(p));
                        assert(false);
                    }
                }
                assert(g0.board_full_after(intent));
            }
        }
        placed
    }
}

impl Game {
    /// Step 6 and 7 of a tick: runs the propagation loop, then restates its
    /// outcome in terms of the tick relation on the starting state.
    #[verifier::rlimit(100)]
    fn propagate_body(
        &mut self,
        h: SnakeBody,
        Ghost(g0): Ghost<Game>,
        Ghost(intent): Ghost<Option<Direction>>,
    ) -> (collided: bool)
        requires
            g0.inv(),
            !g0.over_spec(),
            g0.segs().len() + 2 <= LEN_CAP,
            old(self).segs().len() == g0.len_after(intent),
            old(self).segs()[0] == h,
            h.pos == g0.head_after(intent),
            h.direction == g0.dir_after(intent),
            forall|j: int| 1 <= j < g0.segs().len() ==> old(self).segs()[j] == g0.segs()[j],
            g0.grown_total(intent) >= 1 ==> old(self).segs()[g0.segs().len() as int]
                == (SnakeBody {
                pos: g0.first_grown_cell(intent),
                direction: g0.grow_dir(intent),
            }),
            g0.grown_total(intent) == 2 ==> old(self).segs()[g0.segs().len() as int + 1]
                == (SnakeBody {
                pos: g0.second_grown_cell(intent),
                direction: g0.grow_dir(intent),
            }),
        ensures
            collided == g0.collides(intent),
            final(self).segs().len() == old(self).segs().len(),
            final(self).segs()[0] == h,
            final(self).score_spec() == old(self).score_spec(),
            final(self).settings_spec() == old(self).settings_spec(),
            final(self).apple_spec() == old(self).apple_spec(),
            final(self).over_spec() == old(self).over_spec(),
            !collided ==> final(self).pos_seq() == seq![g0.head_after(intent)]
                + g0.body_targets(intent),
            !collided ==> chain_ok(final(self).segs()),
            !collided ==> coords_ok(final(self).segs(), g0.settings_spec().board_size),
    {
        let ghost q = self.segs();
        let ghost bt = g0.body_targets(intent);
        proof {
            lemma_targets(g0, intent, q, bt);
        }
        let collided = propagate_segments(&mut self.snake, h, Ghost(bt));
        proof {
            reveal(Game::collides);
            assert(collided == g0.collides(intent));
            if !collided {
                lemma_propagation_done(g0, intent, q, bt, self.segs());
                assert(self.pos_seq() == self.segs().map_values(|b: SnakeBody| b.pos));
            }
        }
        collided
    }
}

/// The propagation loop itself, over the raw segment vector: every non-head
/// segment advances one cell along its stored direction (landing, by the
/// chain facts handed in as `targets`, exactly on `targets`), and the stored
/// directions shift one segment backward, starting from the head's.  Returns
/// whether some segment landed on the head's cell.
#[verifier::rlimit(100)]
fn propagate_segments(
    snake: &mut Vec<SnakeBody>,
    h: SnakeBody,
    Ghost(targets): Ghost<Seq<Vec2>>,
) -> (collided: bool)
    requires
        1 <= old(snake)@.len(),
        targets.len() == old(snake)@.len() - 1,
        old(snake)@[0] == h,
        forall|k: int|
            1 <= k < old(snake)@.len() ==> (#[trigger] old(snake)@[k]).pos.moved(
                old(snake)@[k].direction,
            ) == targets[k - 1],
        forall|k: int|
            1 <= k < old(snake)@.len() ==> i64::MIN + 8 < (#[trigger] old(snake)@[k]).pos.x
                < i64::MAX - 8 && i64::MIN + 8 < old(snake)@[k].pos.y < i64::MAX - 8,
    ensures
        final(snake)@.len() == old(snake)@.len(),
        final(snake)@[0] == h,
        collided == targets.contains(h.pos),
        forall|j: int|
            1 <= j < final(snake)@.len() ==> final(snake)@[j] == (SnakeBody {
                pos: targets[j - 1],
                direction: old(snake)@[j - 1].direction,
            }),
{
    let ghost q = snake@;
    let ghost m = q.len() as int;
    let mut collided = false;
    let mut carried = h.direction;
    let mut i: usize = 1;
    let end = snake.len();
    while i < end
        invariant
            1 <= i <= m,
            end == m,
            snake@.len() == m,
            snake@[0] == h,
            targets.len() == m - 1,
            forall|j: int| i <= j < m ==> snake@[j] == q[j],
            forall|j: int|
                1 <= j < i ==> snake@[j] == (SnakeBody {
                    pos: targets[j - 1],
                    direction: q[j - 1].direction,
                }),
            carried == q[i - 1].direction,
            collided == exists|j: int| 0 <= j < i - 1 && targets[j] == h.pos,
            forall|k: int|
                1 <= k < m ==> (#[trigger] q[k]).pos.moved(q[k].direction) == targets[k - 1],
            forall|k: int|
                1 <= k < m ==> i64::MIN + 8 < (#[trigger] q[k]).pos.x < i64::MAX - 8 && i64::MIN
                    + 8 < q[k].pos.y < i64::MAX - 8,
        decreases m - i,
    {
        let mut bseg = snake[i];
        proof {
            assert(bseg == q[i as int]);
        }
        bseg.move_square();
        proof {
            assert(bseg.pos == targets[i - 1]);
        }
        let tmp = bseg.direction;
        bseg.direction = carried;
        carried = tmp;
        snake[i] = bseg;
        if h.pos == bseg.pos {
            collided = true;
            proof {
                assert(targets[i - 1] == h.pos);
            }
        }
        proof {
            if collided && h.pos != bseg.pos {
                let j = choose|j: int| 0 <= j < i - 1 && (#[trigger] targets[j]) == h.pos;
                assert(0 <= j < i && targets[j] == h.pos);
            }
        }
        i = i + 1;
    }
    proof {
        if collided {
            assert(targets.contains(h.pos));
        } else {
            assert(!targets.contains(h.pos)) by {
                if targets.contains(h.pos) {
                    let k = choose|k: int| 0 <= k < targets.len() && targets[k] == h.pos;
                    assert(0 <= k < m - 1 && targets[k] == h.pos);
                }
            }
        }
    }
    collided
}

/// Once every non-head segment has landed on its propagation target, the
/// resulting body is again a chain within coordinate bounds, and the
/// occupied cells are the moved head followed by the targets.
#[verifier::rlimit(100)]
#[verifier::spinoff_prover]
proof fn lemma_propagation_done(
    g0: Game,
    intent: Option<Direction>,
    q: Seq<SnakeBody>,
    bt: Seq<Vec2>,
    s: Seq<SnakeBody>,
)
    requires
        g0.inv(),
        !g0.over_spec(),
        g0.segs().len() + 2 <= LEN_CAP,
        bt == g0.body_targets(intent),
        q.len() == g0.len_after(intent),
        q[0] == (SnakeBody { pos: g0.head_after(intent), direction: g0.dir_after(intent) }),
        forall|j: int| 1 <= j < g0.segs().len() ==> q[j] == g0.segs()[j],
        g0.grown_total(intent) >= 1 ==> q[g0.segs().len() as int] == (SnakeBody {
            pos: g0.first_grown_cell(intent),
            direction: g0.grow_dir(intent),
        }),
        g0.grown_total(intent) == 2 ==> q[g0.segs().len() as int + 1] == (SnakeBody {
            pos: g0.second_grown_cell(intent),
            direction: g0.grow_dir(intent),
        }),
        s.len() == q.len(),
        s[0] == q[0],
        forall|j: int|
            1 <= j < s.len() ==> (#[trigger] s[j]) == (SnakeBody {
                pos: bt[j - 1],
                direction: q[j - 1].direction,
            }),
    ensures
        chain_ok(s),
        coords_ok(s, g0.settings_spec().board_size),
        s.map_values(|b: SnakeBody| b.pos) == seq![g0.head_after(intent)] + bt,
{
    reveal(Game::body_targets);
    let m = s.len() as int;
    lemma_targets(g0, intent, q, bt);
    assert(bt.len() == m - 1);
    assert forall|j: int|
        1 <= j < m implies (#[trigger] s[j]).pos.moved(s[j].direction) == s[j - 1].pos by {
        if j == 1 {
            assert(bt[0] == g0.pos_seq()[0]);
            assert(s[1].pos == g0.head().pos);
            assert(s[1].direction == g0.dir_after(intent));
        } else {
            assert(bt[j - 1] == q[j - 1].pos);
            assert(q[j - 1].pos.moved(q[j - 1].direction) == bt[j - 2]);
        }
    }
    assert forall|j: int|
        0 <= j < m implies coord_in_range(
        (#[trigger] s[j]).pos,
        g0.settings_spec().board_size,
        m,
    ) by {
        if j == 0 {
            assert(in_board(g0.segs()[0].pos, g0.settings_spec().board_size));
        } else {
            lemma_target_bounds(g0, intent, q, bt, j - 1);
            assert(s[j].pos == bt[j - 1]);
        }
    }
    assert(s.map_values(|b: SnakeBody| b.pos) =~= seq![g0.head_after(intent)] + bt);
}

/// Facts about the propagation targets of a tick on `g0`, once the grown
/// state `q` is in place: every non-head segment of `q`, moved along its own
/// stored direction, lands exactly on its propagation target.
#[verifier::rlimit(100)]
#[verifier::spinoff_prover]
proof fn lemma_targets(g0: Game, intent: Option<Direction>, q: Seq<SnakeBody>, bt: Seq<Vec2>)
    requires
        g0.inv(),
        !g0.over_spec(),
        g0.segs().len() + 2 <= LEN_CAP,
        bt == g0.body_targets(intent),
        q.len() == g0.len_after(intent),
        q[0] == (SnakeBody { pos: g0.head_after(intent), direction: g0.dir_after(intent) }),
        forall|j: int| 1 <= j < g0.segs().len() ==> q[j] == g0.segs()[j],
        g0.grown_total(intent) >= 1 ==> q[g0.segs().len() as int] == (SnakeBody {
            pos: g0.first_grown_cell(intent),
            direction: g0.grow_dir(intent),
        }),
        g0.grown_total(intent) == 2 ==> q[g0.segs().len() as int + 1] == (SnakeBody {
            pos: g0.second_grown_cell(intent),
            direction: g0.grow_dir(intent),
        }),
    ensures
        bt.len() == q.len() - 1,
        forall|k: int|
            1 <= k < q.len() ==> (#[trigger] q[k]).pos.moved(q[k].direction) == bt[k - 1],
        forall|k: int| 1 <= k < q.len() - 1 ==> bt[k] == (#[trigger] q[k]).pos,
        forall|k: int|
            1 <= k < q.len() ==> i64::MIN + 8 < (#[trigger] q[k]).pos.x < i64::MAX - 8 && i64::MIN
                + 8 < q[k].pos.y < i64::MAX - 8,
{
    reveal(Game::body_targets);
    let n = g0.segs().len() as int;
    let m = q.len() as int;
    let g = g0.grown_total(intent);
    let gd = g0.grow_dir(intent);
    let od = gd.opposite_spec();
    assert forall|k: int|
        1 <= k < m implies (#[trigger] q[k]).pos.moved(q[k].direction) == bt[k - 1] by {
        if k < n {
            assert(g0.segs()[k].pos.moved(g0.segs()[k].direction) == g0.segs()[k - 1].pos);
            assert(bt[k - 1] == g0.pos_seq()[k - 1]);
        } else if k == n {
            assert(g >= 1);
            if n == 1 {
                let hp = g0.head().pos;
                assert(coord_in_range(hp, g0.settings_spec().board_size, n));
                crate::geometry::lemma_moved_undo(g0.head_after(intent), od.opposite_spec());
                crate::geometry::lemma_moved_undo(hp, g0.dir_after(intent));
                assert(q[k].pos.moved(gd) == g0.head_after(intent).moved(od));
                assert(g0.head_after(intent).moved(od) == hp);
                assert(bt[k - 1] == g0.pos_seq()[0]);
            } else {
                let t = g0.segs().last();
                assert(coord_in_range(t.pos, g0.settings_spec().board_size, n));
                crate::geometry::lemma_moved_undo(t.pos, gd);
                assert(bt[k - 1] == g0.pos_seq()[n - 1]);
            }
        } else {
            assert(g == 2);
            assert(k == n + 1);
            let fg = g0.first_grown_cell(intent);
            assert(coord_in_range_wide(fg, g0, intent));
            crate::geometry::lemma_moved_undo(fg, gd);
            assert(bt[k - 1] == fg);
        }
    }
    assert forall|k: int| 1 <= k < m - 1 implies bt[k] == (#[trigger] q[k]).pos by {
        if k < n {
            assert(bt[k] == g0.pos_seq()[k]);
        } else {
            assert(k == n && g == 2);
        }
    }
    assert forall|k: int|
        1 <= k < m implies i64::MIN + 8 < (#[trigger] q[k]).pos.x < i64::MAX - 8 && i64::MIN + 8
        < q[k].pos.y < i64::MAX - 8 by {
        if k < n {
            assert(coord_in_range(g0.segs()[k].pos, g0.settings_spec().board_size, n));
        } else if k == n {
            assert(coord_in_range_wide(q[k].pos, g0, intent));
        } else {
            assert(coord_in_range_wide(q[k].pos, g0, intent));
        }
    }
}

/// A loose coordinate bound that covers the freshly grown cells of a tick.
spec fn coord_in_range_wide(p: Vec2, g0: Game, intent: Option<Direction>) -> bool {
    let b = g0.settings_spec().board_size;
    let n = g0.segs().len() as int;
    &&& -(2 * n + 8) <= p.x <= b.x + 2 * n + 8
    &&& -(2 * n + 8) <= p.y <= b.y + 2 * n + 8
}

/// Every propagation target stays inside the coordinate bound of the grown
/// length.
#[verifier::rlimit(100)]
#[verifier::spinoff_prover]
proof fn lemma_target_bounds(
    g0: Game,
    intent: Option<Direction>,
    q: Seq<SnakeBody>,
    bt: Seq<Vec2>,
    k: int,
)
    requires
        g0.inv(),
        !g0.over_spec(),
        g0.segs().len() + 2 <= LEN_CAP,
        bt == g0.body_targets(intent),
        q.len() == g0.len_after(intent),
        0 <= k < bt.len(),
    ensures
        coord_in_range(bt[k], g0.settings_spec().board_size, q.len() as int),
{
    reveal(Game::body_targets);
    let n = g0.segs().len() as int;
    let b = g0.settings_spec().board_size;
    let m = q.len() as int;
    if k < n {
        assert(bt[k] == g0.pos_seq()[k]);
        assert(coord_in_range(g0.segs()[k].pos, b, n));
    } else {
        assert(k == n && g0.grown_total(intent) == 2);
        assert(bt[k] == g0.first_grown_cell(intent));
        if n == 1 {
            assert(in_board(g0.segs()[0].pos, b));
        } else {
            assert(coord_in_range(g0.segs()[n - 1].pos, b, n));
        }
    }
}

/// True exactly when every segment satisfies the coordinate bound.
fn check_coords(snake: &Vec<SnakeBody>, board: Vec2) -> (r: bool)
    requires
        1 <= snake@.len() <= LEN_CAP,
        0 <= board.x <= MAX_BOARD,
        0 <= board.y <= MAX_BOARD,
    ensures
        r == coords_ok(snake@, board),
{
    let n = snake.len();
    let k: i64 = 2 * (n as i64) + 2;
    let mut i: usize = 0;
    while i < n
        invariant
            i <= n,
            n == snake@.len(),
            1 <= n <= LEN_CAP,
            0 <= board.x <= MAX_BOARD,
            0 <= board.y <= MAX_BOARD,
            k == 2 * (n as int) + 2,
            forall|j: int|
                0 <= j < i ==> coord_in_range((#[trigger] snake@[j]).pos, board, n as int),
        decreases n - i,
    {
        let p = snake[i].pos;
        if !(-k <= p.x && p.x <= board.x + k && -k <= p.y && p.y <= board.y + k) {
            return false;
        }
        i = i + 1;
    }
    true
}

/// True exactly when every non-head segment moves onto its predecessor.
/// Coordinate bounds must already have been checked.
fn check_chain(snake: &Vec<SnakeBody>) -> (r: bool)
    requires
        1 <= snake@.len(),
        forall|j: int|
            0 <= j < snake@.len() ==> i64::MIN + 4 < (#[trigger] snake@[j]).pos.x < i64::MAX - 4
                && i64::MIN + 4 < snake@[j].pos.y < i64::MAX - 4,
    ensures
        r == chain_ok(snake@),
{
    let mut i: usize = 1;
    while i < snake.len()
        invariant
            1 <= i <= snake@.len(),
            forall|j: int|
                0 <= j < snake@.len() ==> i64::MIN + 4 < (#[trigger] snake@[j]).pos.x < i64::MAX
                    - 4 && i64::MIN + 4 < snake@[j].pos.y < i64::MAX - 4,
            forall|j: int|
                1 <= j < i ==> (#[trigger] snake@[j]).pos.moved(snake@[j].direction) == snake@[j
                    - 1].pos,
        decreases snake@.len() - i,
    {
        let mut s = snake[i];
        s.move_square();
        let prev = snake[i - 1];
        if !(s.pos == prev.pos) {
            return false;
        }
        i = i + 1;
    }
    true
}

/// True exactly when some segment sits on `p`.
fn pos_on_snake(snake: &Vec<SnakeBody>, p: Vec2) -> (r: bool)
    ensures
        r == exists|i: int| 0 <= i < snake@.len() && (#[trigger] snake@[i]).pos == p,
{
    let mut i: usize = 0;
    while i < snake.len()
        invariant
            i <= snake@.len(),
            forall|j: int| 0 <= j < i ==> (#[trigger] snake@[j]).pos != p,
        decreases snake@.len() - i,
    {
        if snake[i].pos == p {
            return true;
        }
        i = i + 1;
    }
    false
}

} // verus!
