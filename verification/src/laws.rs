//! General laws of the tick relation, proved once for every live state.
//! Together with the exact clauses in `Game::tick`'s contract they pin the
//! update rule down: `tick` itself guarantees that its result equals
//! `outcome_after` and that score, length, head and body cells follow the
//! spec functions these lemmas speak about.

use vstd::prelude::*;

use crate::game::{hits_wall, Game, Outcome};
use crate::geometry::Direction;

verus! {

/// A tick never shrinks the snake, and a snake that has reached the
/// configured minimum length never drops below it again.
pub proof fn lemma_min_length_preserved(g: Game, intent: Option<Direction>)
    requires
        g.inv(),
        !g.over_spec(),
    ensures
        g.len_after(intent) >= g.segs().len(),
        g.segs().len() >= g.settings_spec().min_len ==> g.len_after(intent)
            >= g.settings_spec().min_len,
{
}

/// While the snake is still below the configured minimum length, every tick
/// grows it by at least one segment: the startup ramp reaches the minimum.
pub proof fn lemma_ramp_grows(g: Game, intent: Option<Direction>)
    requires
        g.inv(),
        !g.over_spec(),
        g.segs().len() < g.settings_spec().min_len,
    ensures
        g.len_after(intent) >= g.segs().len() + 1,
{
    reveal(Game::board_full_after);
}

/// Eating one apple adds exactly one to the score, and — once the snake is at
/// or above the minimum length — exactly one segment, regardless of the
/// current length.
pub proof fn lemma_growth_on_apple(g: Game, intent: Option<Direction>)
    requires
        g.inv(),
        !g.over_spec(),
        g.eats(intent),
        !g.board_full_after(intent),
        g.segs().len() >= g.settings_spec().min_len,
    ensures
        g.len_after(intent) == g.segs().len() + 1,
        g.score_after(intent) == g.score_spec() + 1,
{
}

/// A tick that eats nothing changes neither score nor — at or above the
/// minimum length — the number of segments.
pub proof fn lemma_no_apple_no_growth(g: Game, intent: Option<Direction>)
    requires
        g.inv(),
        !g.over_spec(),
        !g.eats(intent),
        g.segs().len() >= g.settings_spec().min_len,
    ensures
        g.len_after(intent) == g.segs().len(),
        g.score_after(intent) == g.score_spec(),
{
    reveal(Game::board_full_after);
}

/// Direction-reversal rejection: an intent that is the exact opposite of the
/// head's direction leaves the head's direction unchanged.
pub proof fn lemma_reversal_rejected(g: Game, d: Direction)
    requires
        g.segs().len() >= 1,
        d == g.head().direction.opposite_spec(),
    ensures
        g.dir_after(Some(d)) == g.head().direction,
{
}

/// Any other intent is taken as the new head direction.
pub proof fn lemma_intent_taken(g: Game, d: Direction)
    requires
        g.segs().len() >= 1,
        d != g.head().direction.opposite_spec(),
    ensures
        g.dir_after(Some(d)) == d,
{
}

/// Boundary detection: a head landing on a sentinel line of the board makes
/// the tick report `LeftBoard`.
pub proof fn lemma_boundary_terminal(g: Game, intent: Option<Direction>)
    requires
        g.inv(),
        !g.over_spec(),
        hits_wall(g.head_after(intent), g.settings_spec().board_size),
    ensures
        g.outcome_after(intent) == Outcome::LeftBoard,
{
    reveal(Game::board_full_after);
}

/// Self-collision detection: a moved head landing on a cell of the moved
/// body makes the tick report `SelfCollision`, as long as it stayed on the
/// board and the board did not fill up.
pub proof fn lemma_self_collision_terminal(g: Game, intent: Option<Direction>)
    requires
        g.inv(),
        !g.over_spec(),
        !hits_wall(g.head_after(intent), g.settings_spec().board_size),
        !g.board_full_after(intent),
        g.collides(intent),
    ensures
        g.outcome_after(intent) == Outcome::SelfCollision,
{
}

/// Path shift: a tick that eats nothing, at or above the minimum length,
/// leaves the body cells to be exactly the snake's previous cells with the
/// tail's dropped — together with `tick`'s body-layout clause, the occupied
/// cells after a `Continue` tick are the old ones shifted one step along the
/// head's path.
pub proof fn lemma_continue_shifts_path(g: Game, intent: Option<Direction>)
    requires
        g.inv(),
        !g.over_spec(),
        !g.eats(intent),
        g.segs().len() >= g.settings_spec().min_len,
    ensures
        g.len_after(intent) == g.segs().len(),
        g.body_targets(intent) == g.pos_seq().take(g.segs().len() - 1),
{
    reveal(Game::board_full_after);
    reveal(Game::body_targets);
}

} // verus!
