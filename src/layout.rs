//! Board presets and what goes where on screen.
use vstd::prelude::*;
use crate::geometry::Point;
use crate::game::{Game, GameView};

verus! {

/// Rows above the board kept for the status line.
pub const STATUS_ROWS: i32 = 1;

/// Board dimensions `(width, height)` for a menu choice: small, medium or large.
pub open spec fn board_of(choice: char) -> Option<(i32, i32)> {
    if choice == '1' {
        Some((20, 10))
    } else if choice == '2' {
        Some((40, 20))
    } else if choice == '3' {
        Some((60, 30))
    } else {
        None
    }
}

/// Tick interval in milliseconds for a menu choice: easy, normal or hard.
pub open spec fn difficulty_of(choice: char) -> Option<u64> {
    if choice == '1' {
        Some(300)
    } else if choice == '2' {
        Some(200)
    } else if choice == '3' {
        Some(100)
    } else {
        None
    }
}

pub fn board_preset(choice: char) -> (r: Option<(i32, i32)>)
    ensures
        r == board_of(choice),
{
    if choice == '1' {
        Some((20, 10))
    } else if choice == '2' {
        Some((40, 20))
    } else if choice == '3' {
        Some((60, 30))
    } else {
        None
    }
}

pub fn difficulty_preset(choice: char) -> (r: Option<u64>)
    ensures
        r == difficulty_of(choice),
{
    if choice == '1' {
        Some(300)
    } else if choice == '2' {
        Some(200)
    } else if choice == '3' {
        Some(100)
    } else {
        None
    }
}

/// Whether board cell `(x, y)` is part of the wall border.
pub fn is_wall(width: i32, height: i32, x: i32, y: i32) -> (r: bool)
    ensures
        r == (x == 0 || y == 0 || x == width - 1 || y == height - 1),
{
    x == 0 || y == 0 || x as i64 == width as i64 - 1 || y as i64 == height as i64 - 1
}

/// What a screen cell shows.
#[derive(Clone, Copy, Debug, PartialEq, Eq, Structural)]
pub enum Glyph {
    Head,
    Body,
    Food,
}

/// A glyph at a screen position.
#[derive(Clone, Copy, Debug, PartialEq, Eq, Structural)]
pub struct Sprite {
    pub col: u16,
    pub row: u16,
    pub glyph: Glyph,
}

/// Where board cell `p` shows on screen: below the status line.
pub open spec fn sprite_at(p: Point, glyph: Glyph) -> Sprite {
    Sprite { col: p.x as u16, row: (p.y + STATUS_ROWS) as u16, glyph }
}

/// The screen position of a playable cell.
fn place(p: Point, glyph: Glyph) -> (r: Sprite)
    requires
        0 <= p.x < 1024,
        0 <= p.y < 1024,
    ensures
        r == sprite_at(p, glyph),
{
    Sprite { col: p.x as u16, row: (p.y + STATUS_ROWS) as u16, glyph }
}

/// What to draw for a game: each snake cell from tail to head (the head
/// marked apart), then the food.
pub fn sprites(game: &Game) -> (r: Vec<Sprite>)
    requires
        game.wf(),
    ensures
        r@.len() == game@.snake.len() + 1,
        forall|i: int|
            0 <= i < game@.snake.len() - 1 ==> #[trigger] r@[i] == sprite_at(game@.snake[i], Glyph::Body),
        r@[game@.snake.len() - 1] == sprite_at(game@.head(), Glyph::Head),
        r@[game@.snake.len() as int] == sprite_at(game@.food, Glyph::Food),
{
    let cells = game.snake_cells();
    let n = cells.len();
    let ghost v: GameView = game@;
    proof {
        game.lemma_wf_valid();
    }
    let mut r: Vec<Sprite> = Vec::new();
    let mut i: usize = 0;
    while i < n
        invariant
            v == game@,
            v.valid(),
            cells@ == v.snake,
            n == cells@.len(),
            0 <= i <= n,
            r@.len() == i,
            forall|k: int| 0 <= k < i && k < n - 1 ==> #[trigger] r@[k] == sprite_at(v.snake[k], Glyph::Body),
            i == n ==> r@[n - 1] == sprite_at(v.head(), Glyph::Head),
        decreases n - i,
    {
        let p = cells[i];
        assert(crate::game::interior(v.width, v.height, v.snake[i as int]));
        let glyph = if i + 1 == n { Glyph::Head } else { Glyph::Body };
        r.push(place(p, glyph));
        i = i + 1;
    }
    r.push(place(game.food(), Glyph::Food));
    r
}

} // verus!
