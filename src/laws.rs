//! Properties of the game that hold across calls, stated over the abstract state.
use vstd::prelude::*;
use crate::geometry::{Point, Direction, adjacent, lemma_step_adjacent, lemma_unit_vector};
use crate::input::{Intent, Key, key_heading, intent_of};
use crate::game::{
    GameView, TickResult, interior, free_cell, is_first_free, first_free_draw, food_choice,
    lemma_grow_ok, lemma_shrink_ok, lemma_push_contains, lemma_drop_first_contains, lemma_first_free_is,
};

verus! {

/// A tick from a valid state leads to a valid state; in particular the snake
/// never covers a cell twice.
pub proof fn lemma_tick_keeps_valid(v: GameView, next: GameView, r: TickResult)
    requires
        v.valid(),
        v.tick_step(next, r),
    ensures
        next.valid(),
        next.snake.no_duplicates(),
{
    lemma_unit_vector(v.pending);
    if v.outcome.is_none() && interior(v.width, v.height, v.next_head()) && !v.snake.contains(v.next_head()) {
        let nh = v.next_head();
        assert(interior(v.width, v.height, v.snake[v.snake.len() - 1]));
        lemma_step_adjacent(v.head(), v.pending);
        lemma_grow_ok(v.width, v.height, v.snake, nh);
        let grown = v.snake.push(nh);
        lemma_push_contains(v.snake, nh);
        if nh != v.food {
            lemma_shrink_ok(v.width, v.height, grown);
            lemma_drop_first_contains(grown);
            assert(grown.drop_first() =~= v.snake.drop_first().push(nh));
        }
    }
}

/// An intent from a valid state leads to a valid state.
pub proof fn lemma_intent_keeps_valid(v: GameView, i: Intent)
    requires
        v.valid(),
    ensures
        v.after_intent(i).valid(),
{
}

/// On every move the head advances by the unit vector of the committed
/// direction: to a neighbouring cell, never diagonally and never in place.
pub proof fn lemma_tick_moves_head_one_cell(v: GameView, next: GameView, r: TickResult)
    requires
        v.valid(),
        v.tick_step(next, r),
        r == TickResult::AteFood || r is Continue,
    ensures
        next.direction == v.pending,
        next.head().x == v.head().x + v.pending.dx(),
        next.head().y == v.head().y + v.pending.dy(),
        adjacent(v.head(), next.head()),
        next.head() != v.head(),
{
    lemma_unit_vector(v.pending);
    assert(interior(v.width, v.height, v.snake[v.snake.len() - 1]));
    lemma_step_adjacent(v.head(), v.pending);
}

/// An arrow key for the exact reverse of the current direction is dropped;
/// any other arrow key becomes a turn towards its heading.
pub proof fn lemma_reverse_turn_dropped(key: Key, current: Direction)
    requires
        key_heading(key).is_some(),
    ensures
        key_heading(key).unwrap() == current.reverse() ==> intent_of(key, current) == Intent::Ignore,
        key_heading(key).unwrap() != current.reverse() ==> intent_of(key, current) == Intent::ChangeDirection(
            key_heading(key).unwrap(),
        ),
{
}

/// While the session runs, an arrow key for the exact reverse of the current
/// direction leaves the queued direction as it was; any other arrow key
/// queues its heading. The current direction itself changes only on a tick.
pub proof fn lemma_arrow_key_turn(v: GameView, key: Key)
    requires
        v.valid(),
        v.outcome.is_none(),
        key_heading(key).is_some(),
    ensures
        ({
            let d = key_heading(key).unwrap();
            let after = v.after_intent(intent_of(key, v.direction));
            &&& d == v.direction.reverse() ==> after.pending == v.pending
            &&& d != v.direction.reverse() ==> after.pending == d
            &&& after.direction == v.direction
            &&& after.snake == v.snake
        }),
{
}

/// A queued turn is never the reverse of the direction in effect, so the
/// direction committed by the next tick never reverses the last one.
pub proof fn lemma_committed_never_reverses(v: GameView, i: Intent)
    requires
        v.valid(),
    ensures
        v.after_intent(i).pending != v.direction.reverse(),
        v.after_intent(i).direction == v.direction,
{
}

/// Eating grows the snake by one cell and the score by one, and the new food
/// lies outside the grown snake.
pub proof fn lemma_eating_grows(v: GameView, next: GameView)
    requires
        v.valid(),
        v.tick_step(next, TickResult::AteFood),
    ensures
        next.snake.len() == v.snake.len() + 1,
        next.score == v.score + 1,
        next.snake == v.snake.push(v.next_head()),
        !next.snake.contains(next.food),
        interior(next.width, next.height, next.food),
{
}

/// A move without food keeps the snake's length: the head cell is added, the
/// old tail cell is removed and reported as vacated.
pub proof fn lemma_plain_move_keeps_length(v: GameView, next: GameView, vacated: Point)
    requires
        v.valid(),
        v.tick_step(next, TickResult::Continue { vacated }),
    ensures
        next.snake.len() == v.snake.len(),
        next.snake == v.snake.drop_first().push(v.next_head()),
        vacated == v.snake[0],
        !next.snake.contains(vacated),
        next.score == v.score,
        next.food == v.food,
{
    lemma_tick_keeps_valid(v, next, TickResult::Continue { vacated });
    let nh = v.next_head();
    lemma_push_contains(v.snake, nh);
    lemma_drop_first_contains(v.snake.push(nh));
    assert(v.snake.push(nh).drop_first() =~= v.snake.drop_first().push(nh));
}

/// Whatever the random candidates, a chosen cell is free.
pub proof fn lemma_drawn_cell_free(w: int, h: int, snake: Seq<Point>, draws: Seq<Point>)
    ensures
        first_free_draw(w, h, snake, draws) matches Some(p) ==> free_cell(w, h, snake, p),
    decreases draws.len(),
{
    if draws.len() > 0 && !free_cell(w, h, snake, draws[0]) {
        lemma_drawn_cell_free(w, h, snake, draws.drop_first());
    }
}

/// When a single playable cell is free, food goes there, whatever the random
/// candidates were.
pub proof fn lemma_last_free_cell_chosen(w: int, h: int, snake: Seq<Point>, draws: Seq<Point>, c: Point)
    requires
        free_cell(w, h, snake, c),
        forall|p: Point| #[trigger] free_cell(w, h, snake, p) ==> p == c,
    ensures
        food_choice(w, h, snake, draws) == Some(c),
{
    lemma_drawn_cell_free(w, h, snake, draws);
    assert(is_first_free(w, h, snake, c));
    lemma_first_free_is(w, h, snake, c);
}

} // verus!
