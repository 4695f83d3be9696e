use vstd::prelude::*;
use std::collections::VecDeque;
use rand::Rng;
use crate::geometry::{Point, Direction, adjacent, step_from, lemma_step_adjacent, lemma_unit_vector};
use crate::input::{Intent, Key, MIN_TICK_MS, MAX_TICK_MS, faster_ms, slower_ms, intent_of, interpret, speed_up, slow_down};

verus! {

/// Largest accepted board side, walls included.
pub const MAX_SIDE: i32 = 1024;

/// How many random cells the food spawner tries before it scans the board.
pub const SPAWN_ATTEMPTS: usize = 64;

/// Why a session ended.
#[derive(Clone, Copy, Debug, PartialEq, Eq, Structural)]
pub enum EndReason {
    HitWall,
    HitSelf,
    Quit,
    /// The snake covers every interior cell: nowhere is left for food.
    BoardFull,
}

/// What one tick did.
#[derive(Clone, Copy, Debug, PartialEq, Eq, Structural)]
pub enum TickResult {
    /// The snake moved; `vacated` is the former tail cell, to be cleared on screen.
    Continue { vacated: Point },
    /// The snake ate the food and grew; new food was placed.
    AteFood,
    GameOver(EndReason),
}

/// Why a game could not be set up.
#[derive(Clone, Copy, Debug, PartialEq, Eq, Structural)]
pub enum ConfigError {
    BadSize,
    BadSpeed,
    BadSnake,
    BadFood,
}

/// The abstract state of a session.
pub struct GameView {
    pub width: int,
    pub height: int,
    /// Cells of the snake, tail first, head last.
    pub snake: Seq<Point>,
    /// Always a playable cell off the snake, except after a meal that filled
    /// the board: no free cell is left then, and the food stays on the cell
    /// just eaten, now the head, while the session ends with `BoardFull`.
    pub food: Point,
    pub score: int,
    pub tick_ms: int,
    pub paused: bool,
    /// The direction of the last move.
    pub direction: Direction,
    /// The direction the next tick will take.
    pub pending: Direction,
    /// `Some` once the session has ended.
    pub outcome: Option<EndReason>,
}

/// A playable cell: inside the one-cell-thick wall border.
pub open spec fn interior(w: int, h: int, p: Point) -> bool {
    1 <= p.x < w - 1 && 1 <= p.y < h - 1
}

/// Any cell of the board, walls included.
pub open spec fn in_grid(w: int, h: int, p: Point) -> bool {
    0 <= p.x < w && 0 <= p.y < h
}

/// A playable cell the snake does not cover.
pub open spec fn free_cell(w: int, h: int, snake: Seq<Point>, p: Point) -> bool {
    interior(w, h, p) && !snake.contains(p)
}

/// Row-major order of cells.
pub open spec fn precedes(q: Point, p: Point) -> bool {
    q.y < p.y || (q.y == p.y && q.x < p.x)
}

/// `p` is the free cell that comes first in row-major order.
pub open spec fn is_first_free(w: int, h: int, snake: Seq<Point>, p: Point) -> bool {
    &&& free_cell(w, h, snake, p)
    &&& forall|q: Point| #[trigger] free_cell(w, h, snake, q) ==> !precedes(q, p)
}

/// The free cell that comes first in row-major order, if any.
pub open spec fn first_free(w: int, h: int, snake: Seq<Point>) -> Option<Point> {
    if exists|p: Point| is_first_free(w, h, snake, p) {
        Some(choose|p: Point| is_first_free(w, h, snake, p))
    } else {
        None
    }
}

/// The snake covers every playable cell.
pub open spec fn board_full(w: int, h: int, snake: Seq<Point>) -> bool {
    forall|p: Point| interior(w, h, p) ==> #[trigger] snake.contains(p)
}

/// The first of `draws` that is a free cell, if any.
pub open spec fn first_free_draw(w: int, h: int, snake: Seq<Point>, draws: Seq<Point>) -> Option<Point>
    decreases draws.len(),
{
    if draws.len() == 0 {
        None
    } else if free_cell(w, h, snake, draws[0]) {
        Some(draws[0])
    } else {
        first_free_draw(w, h, snake, draws.drop_first())
    }
}

/// Where food goes, given candidate cells drawn at random: the first free
/// candidate, or else the first free cell in row-major order.
pub open spec fn food_choice(w: int, h: int, snake: Seq<Point>, draws: Seq<Point>) -> Option<Point> {
    match first_free_draw(w, h, snake, draws) {
        Some(p) => Some(p),
        None => first_free(w, h, snake),
    }
}

/// Board dimensions the game accepts.
pub open spec fn size_ok(w: int, h: int) -> bool {
    &&& 3 <= w <= MAX_SIDE
    &&& 3 <= h <= MAX_SIDE
    &&& !(w == 3 && h == 3)
}

/// Tick intervals the game accepts.
pub open spec fn speed_ok(ms: int) -> bool {
    MIN_TICK_MS <= ms <= MAX_TICK_MS
}

/// A snake that fits the board: non-empty, on playable cells, no cell twice,
/// each segment next to the one before it.
pub open spec fn snake_ok(w: int, h: int, snake: Seq<Point>) -> bool {
    &&& snake.len() >= 1
    &&& snake.no_duplicates()
    &&& forall|i: int| 0 <= i < snake.len() ==> interior(w, h, #[trigger] snake[i])
    &&& forall|i: int| 0 <= i < snake.len() - 1 ==> adjacent(#[trigger] snake[i], snake[i + 1])
}

/// Position of a cell in the row-major occupancy grid.
pub open spec fn cell_index(w: int, p: Point) -> int {
    p.y * w + p.x
}

impl GameView {
    pub open spec fn head(self) -> Point {
        self.snake.last()
    }

    /// Where the head goes on the next tick.
    pub open spec fn next_head(self) -> Point {
        step_from(self.head(), self.pending)
    }

    /// The invariant of every reachable state.
    pub open spec fn valid(self) -> bool {
        &&& size_ok(self.width, self.height)
        &&& snake_ok(self.width, self.height, self.snake)
        &&& interior(self.width, self.height, self.food)
        &&& self.outcome != Some(EndReason::BoardFull) ==> !self.snake.contains(self.food)
        &&& speed_ok(self.tick_ms)
        &&& self.pending != self.direction.reverse()
        &&& 0 <= self.score < self.snake.len()
    }

    /// The state after an intent. Once the session has ended nothing changes.
    pub open spec fn after_intent(self, i: Intent) -> GameView {
        if self.outcome.is_some() {
            self
        } else {
            match i {
                Intent::Quit => GameView { outcome: Some(EndReason::Quit), ..self },
                Intent::TogglePause => GameView { paused: !self.paused, ..self },
                Intent::SpeedUp => GameView { tick_ms: faster_ms(self.tick_ms as u64) as int, ..self },
                Intent::SlowDown => GameView { tick_ms: slower_ms(self.tick_ms as u64) as int, ..self },
                Intent::ChangeDirection(d) => if d == self.direction.reverse() {
                    self
                } else {
                    GameView { pending: d, ..self }
                },
                Intent::Ignore => self,
            }
        }
    }

    /// One tick from `self` to `next`, returning `r`. Where food goes after a
    /// meal is left open here beyond its being a free cell.
    pub open spec fn tick_step(self, next: GameView, r: TickResult) -> bool {
        let nh = self.next_head();
        let turned = GameView { direction: self.pending, ..self };
        if self.outcome.is_some() {
            next == self && r == TickResult::GameOver(self.outcome.unwrap())
        } else if !interior(self.width, self.height, nh) {
            next == GameView { outcome: Some(EndReason::HitWall), ..turned }
                && r == TickResult::GameOver(EndReason::HitWall)
        } else if self.snake.contains(nh) {
            next == GameView { outcome: Some(EndReason::HitSelf), ..turned }
                && r == TickResult::GameOver(EndReason::HitSelf)
        } else if nh == self.food {
            let grown = self.snake.push(nh);
            &&& next == GameView {
                snake: grown,
                score: self.score + 1,
                food: next.food,
                outcome: next.outcome,
                ..turned
            }
            &&& if board_full(self.width, self.height, grown) {
                &&& r == TickResult::GameOver(EndReason::BoardFull)
                &&& next.outcome == Some(EndReason::BoardFull)
                &&& next.food == self.food
            } else {
                &&& r == TickResult::AteFood
                &&& next.outcome.is_none()
                &&& free_cell(self.width, self.height, grown, next.food)
            }
        } else {
            next == GameView { snake: self.snake.drop_first().push(nh), ..turned }
                && r == (TickResult::Continue { vacated: self.snake[0] })
        }
    }
}

/// Grid positions stay inside the occupancy grid.
proof fn lemma_index_bounds(w: int, h: int, p: Point)
    requires
        1 <= w <= MAX_SIDE,
        1 <= h <= MAX_SIDE,
        in_grid(w, h, p),
    ensures
        0 <= cell_index(w, p) < w * h,
        w * h <= MAX_SIDE * MAX_SIDE,
{
    assert(p.y * w + p.x < w * h) by (nonlinear_arith)
        requires
            0 <= p.y < h,
            0 <= p.x < w,
    ;
    assert(0 <= p.y * w) by (nonlinear_arith)
        requires
            0 <= p.y,
            0 <= w,
    ;
    assert(w * h <= MAX_SIDE * MAX_SIDE) by (nonlinear_arith)
        requires
            1 <= w <= MAX_SIDE,
            1 <= h <= MAX_SIDE,
    ;
}

/// Distinct cells have distinct grid positions.
proof fn lemma_index_injective(w: int, h: int, p: Point, q: Point)
    requires
        1 <= w,
        in_grid(w, h, p),
        in_grid(w, h, q),
        cell_index(w, p) == cell_index(w, q),
    ensures
        p == q,
{
    if p.y < q.y {
        assert(p.y * w + w <= q.y * w) by (nonlinear_arith)
            requires
                p.y < q.y,
                1 <= w,
        ;
    } else if q.y < p.y {
        assert(q.y * w + w <= p.y * w) by (nonlinear_arith)
            requires
                q.y < p.y,
                1 <= w,
        ;
    }
}

/// Rewriting the grid position of `c` keeps the grid in step with a snake
/// that changed at `c` alone.
proof fn lemma_grid_update(w: int, h: int, grid: Seq<bool>, s: Seq<Point>, s2: Seq<Point>, c: Point, b: bool)
    requires
        1 <= w <= MAX_SIDE,
        1 <= h <= MAX_SIDE,
        grid.len() == w * h,
        in_grid(w, h, c),
        forall|p: Point| in_grid(w, h, p) ==> #[trigger] grid[cell_index(w, p)] == s.contains(p),
        forall|p: Point| p != c ==> (s2.contains(p) == s.contains(p)),
        s2.contains(c) == b,
    ensures
        forall|p: Point| in_grid(w, h, p) ==> #[trigger] grid.update(cell_index(w, c), b)[cell_index(w, p)]
            == s2.contains(p),
{
    lemma_index_bounds(w, h, c);
    assert forall|p: Point| in_grid(w, h, p) implies #[trigger] grid.update(cell_index(w, c), b)[cell_index(w, p)]
        == s2.contains(p) by {
        lemma_index_bounds(w, h, p);
        if p != c {
            if cell_index(w, p) == cell_index(w, c) {
                lemma_index_injective(w, h, p, c);
            }
        }
    }
}

/// There is at most one first free cell.
proof fn lemma_first_free_unique(w: int, h: int, snake: Seq<Point>, p: Point, q: Point)
    requires
        is_first_free(w, h, snake, p),
        is_first_free(w, h, snake, q),
    ensures
        p == q,
{
    assert(free_cell(w, h, snake, q));
    assert(free_cell(w, h, snake, p));
}

/// The first free cell, where one is known.
pub(crate) proof fn lemma_first_free_is(w: int, h: int, snake: Seq<Point>, p: Point)
    requires
        is_first_free(w, h, snake, p),
    ensures
        first_free(w, h, snake) == Some(p),
{
    let c = choose|c: Point| is_first_free(w, h, snake, c);
    lemma_first_free_unique(w, h, snake, p, c);
}

/// Position of a cell in the occupancy grid.
fn grid_slot(w: i32, h: i32, p: Point) -> (r: usize)
    requires
        size_ok(w as int, h as int),
        in_grid(w as int, h as int, p),
    ensures
        r == cell_index(w as int, p),
        r < w * h,
{
    proof {
        lemma_index_bounds(w as int, h as int, p);
    }
    (p.y as usize) * (w as usize) + (p.x as usize)
}

/// Whether two cells share an edge.
fn neighbours(p: Point, q: Point) -> (r: bool)
    requires
        0 <= p.x <= MAX_SIDE,
        0 <= p.y <= MAX_SIDE,
        0 <= q.x <= MAX_SIDE,
        0 <= q.y <= MAX_SIDE,
    ensures
        r == adjacent(p, q),
{
    let ddx = if p.x >= q.x { p.x - q.x } else { q.x - p.x };
    let ddy = if p.y >= q.y { p.y - q.y } else { q.y - p.y };
    ddx + ddy == 1
}

pub(crate) proof fn lemma_push_contains(s: Seq<Point>, x: Point)
    ensures
        forall|p: Point| #[trigger] s.push(x).contains(p) == (s.contains(p) || p == x),
{
    assert forall|p: Point| #[trigger] s.push(x).contains(p) == (s.contains(p) || p == x) by {
        if s.push(x).contains(p) {
            let j = choose|j: int| 0 <= j < s.push(x).len() && s.push(x)[j] == p;
            if j < s.len() {
                assert(s[j] == p);
            }
        }
        if s.contains(p) {
            let j = choose|j: int| 0 <= j < s.len() && s[j] == p;
            assert(s.push(x)[j] == p);
        }
        if p == x {
            assert(s.push(x)[s.len() as int] == p);
        }
    }
}

pub(crate) proof fn lemma_drop_first_contains(s: Seq<Point>)
    requires
        s.len() >= 1,
        s.no_duplicates(),
    ensures
        forall|p: Point| #[trigger] s.drop_first().contains(p) == (s.contains(p) && p != s[0]),
{
    assert forall|p: Point| #[trigger] s.drop_first().contains(p) == (s.contains(p) && p != s[0]) by {
        if s.drop_first().contains(p) {
            let j = choose|j: int| 0 <= j < s.drop_first().len() && s.drop_first()[j] == p;
            assert(s[j + 1] == p);
        }
        if s.contains(p) && p != s[0] {
            let j = choose|j: int| 0 <= j < s.len() && s[j] == p;
            assert(s.drop_first()[j - 1] == p);
        }
    }
}

/// Growing a snake by a fresh neighbouring cell at the head keeps it well shaped.
pub(crate) proof fn lemma_grow_ok(w: int, h: int, s: Seq<Point>, x: Point)
    requires
        snake_ok(w, h, s),
        interior(w, h, x),
        !s.contains(x),
        adjacent(s.last(), x),
    ensures
        snake_ok(w, h, s.push(x)),
{
    let g = s.push(x);
    assert forall|i: int, j: int| 0 <= i < g.len() && 0 <= j < g.len() && i != j implies g[i] != g[j] by {
        if i < s.len() && j < s.len() {
            assert(s[i] != s[j]);
        } else if i < s.len() {
            assert(s.contains(s[i]));
        } else if j < s.len() {
            assert(s.contains(s[j]));
        }
    }
    assert forall|i: int| 0 <= i < g.len() implies interior(w, h, #[trigger] g[i]) by {
        if i < s.len() {
            assert(interior(w, h, s[i]));
        }
    }
    assert forall|i: int| 0 <= i < g.len() - 1 implies adjacent(#[trigger] g[i], g[i + 1]) by {
        if i < s.len() - 1 {
            assert(adjacent(s[i], s[i + 1]));
        }
    }
}

/// Dropping the tail of a snake of two or more cells keeps it well shaped.
pub(crate) proof fn lemma_shrink_ok(w: int, h: int, s: Seq<Point>)
    requires
        snake_ok(w, h, s),
        s.len() >= 2,
    ensures
        snake_ok(w, h, s.drop_first()),
{
    let d = s.drop_first();
    assert forall|i: int, j: int| 0 <= i < d.len() && 0 <= j < d.len() && i != j implies d[i] != d[j] by {
        assert(s[i + 1] != s[j + 1]);
    }
    assert forall|i: int| 0 <= i < d.len() implies interior(w, h, #[trigger] d[i]) by {
        assert(interior(w, h, s[i + 1]));
    }
    assert forall|i: int| 0 <= i < d.len() - 1 implies adjacent(#[trigger] d[i], d[i + 1]) by {
        assert(adjacent(s[i + 1], s[i + 2]));
    }
}

/// Relies on rand::thread_rng and rand::Rng::gen_range: a value drawn from `lo..hi`;
/// `gen_range` panics only on an empty range, which `requires` rules out
/// (`thread_rng` fails only where the system has no random source).
#[verifier::external_body]
fn random_between(lo: i32, hi: i32) -> (r: i32)
    requires
        lo < hi,
    ensures
        lo <= r < hi,
{
    rand::thread_rng().gen_range(lo..hi)
}

/// Random playable cells for the food spawner to try.
fn random_cells(w: i32, h: i32) -> (r: Vec<Point>)
    requires
        size_ok(w as int, h as int),
    ensures
        r@.len() == SPAWN_ATTEMPTS,
        forall|i: int| 0 <= i < r@.len() ==> interior(w as int, h as int, #[trigger] r@[i]),
{
    let mut r: Vec<Point> = Vec::new();
    while r.len() < SPAWN_ATTEMPTS
        invariant
            size_ok(w as int, h as int),
            r@.len() <= SPAWN_ATTEMPTS,
            forall|i: int| 0 <= i < r@.len() ==> interior(w as int, h as int, #[trigger] r@[i]),
        decreases SPAWN_ATTEMPTS - r@.len(),
    {
        let x = random_between(1, w - 1);
        let y = random_between(1, h - 1);
        r.push(Point { x, y });
    }
    r
}

/// A session: the board, the snake and the food, and the game's settings.
pub struct Game {
    width: i32,
    height: i32,
    body: VecDeque<Point>,
    /// Which board cells the snake covers, row by row (`cell_index`): the
    /// membership set kept beside `body` for constant-time lookups. A flat
    /// grid keyed by integers is used because a hash set of `Point`s would
    /// rest on a derived `Hash`/`Eq` that Verus does not read, so nothing
    /// about its contents could be proved; the grid is kept in step with
    /// `body` by `grid_ok`.
    occupied: Vec<bool>,
    food: Point,
    score: u64,
    tick_ms: u64,
    paused: bool,
    direction: Direction,
    next_direction: Direction,
    outcome: Option<EndReason>,
}

impl View for Game {
    type V = GameView;

    closed spec fn view(&self) -> GameView {
        GameView {
            width: self.width as int,
            height: self.height as int,
            snake: self.body@,
            food: self.food,
            score: self.score as int,
            tick_ms: self.tick_ms as int,
            paused: self.paused,
            direction: self.direction,
            pending: self.next_direction,
            outcome: self.outcome,
        }
    }
}

impl Game {
    /// The occupancy grid marks exactly the snake's cells.
    closed spec fn grid_ok(&self) -> bool {
        &&& size_ok(self.width as int, self.height as int)
        &&& snake_ok(self.width as int, self.height as int, self.body@)
        &&& self.occupied@.len() == self.width * self.height
        &&& forall|p: Point| in_grid(self.width as int, self.height as int, p)
            ==> #[trigger] self.occupied@[cell_index(self.width as int, p)] == self.body@.contains(p)
    }

    /// Well-formedness: the abstract invariant, and the grid in step with the snake.
    pub closed spec fn wf(&self) -> bool {
        &&& self@.valid()
        &&& self.grid_ok()
    }

    /// Whether a playable cell is free.
    fn is_free(&self, p: Point) -> (r: bool)
        requires
            self.grid_ok(),
        ensures
            r == free_cell(self.width as int, self.height as int, self.body@, p),
    {
        if p.x < 1 || p.x >= self.width - 1 || p.y < 1 || p.y >= self.height - 1 {
            return false;
        }
        let i = grid_slot(self.width, self.height, p);
        !self.occupied[i]
    }

    /// The first free cell in row-major order.
    fn first_free_cell(&self) -> (r: Option<Point>)
        requires
            self.grid_ok(),
        ensures
            r == first_free(self.width as int, self.height as int, self.body@),
            r.is_none() == board_full(self.width as int, self.height as int, self.body@),
    {
        let ghost w = self.width as int;
        let ghost h = self.height as int;
        let ghost s = self.body@;
        let mut y: i32 = 1;
        while y < self.height - 1
            invariant
                self.grid_ok(),
                w == self.width,
                h == self.height,
                s == self.body@,
                1 <= y <= h - 1,
                forall|q: Point| interior(w, h, q) && q.y < y ==> #[trigger] s.contains(q),
            decreases h - y,
        {
            let mut x: i32 = 1;
            while x < self.width - 1
                invariant
                    self.grid_ok(),
                    w == self.width,
                    h == self.height,
                    s == self.body@,
                    1 <= y < h - 1,
                    1 <= x <= w - 1,
                    forall|q: Point| interior(w, h, q) && precedes(q, Point { x, y }) ==> #[trigger] s.contains(q),
                decreases w - x,
            {
                let p = Point { x, y };
                if self.is_free(p) {
                    proof {
                        assert forall|q: Point| #[trigger] free_cell(w, h, s, q) implies !precedes(q, p) by {
                            if precedes(q, p) {
                                assert(s.contains(q));
                            }
                        }
                        lemma_first_free_is(w, h, s, p);
                    }
                    return Some(p);
                }
                x = x + 1;
            }
            y = y + 1;
        }
        proof {
            assert forall|q: Point| interior(w, h, q) implies #[trigger] s.contains(q) by {
                assert(q.y < y);
            }
            if exists|p: Point| is_first_free(w, h, s, p) {
                let p = choose|p: Point| is_first_free(w, h, s, p);
                assert(s.contains(p));
            }
        }
        None
    }

    /// Where food goes, given random candidate cells: exactly `food_choice`.
    fn pick_free(&self, draws: &Vec<Point>) -> (r: Option<Point>)
        requires
            self.grid_ok(),
        ensures
            r == food_choice(self.width as int, self.height as int, self.body@, draws@),
            r.is_none() == board_full(self.width as int, self.height as int, self.body@),
            r matches Some(p) ==> free_cell(self.width as int, self.height as int, self.body@, p),
    {
        let ghost w = self.width as int;
        let ghost h = self.height as int;
        let ghost s = self.body@;
        let mut i: usize = 0;
        assert(draws@.subrange(0, draws@.len() as int) =~= draws@);
        while i < draws.len()
            invariant
                self.grid_ok(),
                w == self.width,
                h == self.height,
                s == self.body@,
                0 <= i <= draws@.len(),
                first_free_draw(w, h, s, draws@) == first_free_draw(w, h, s, draws@.subrange(i as int, draws@.len() as int)),
            decreases draws@.len() - i,
        {
            let p = draws[i];
            let ghost rest = draws@.subrange(i as int, draws@.len() as int);
            assert(rest[0] == p);
            if self.is_free(p) {
                return Some(p);
            }
            assert(rest.drop_first() =~= draws@.subrange(i + 1, draws@.len() as int));
            i = i + 1;
        }
        assert(draws@.subrange(i as int, draws@.len() as int).len() == 0);
        let r = self.first_free_cell();
        proof {
            if let Some(p) = r {
                assert(is_first_free(w, h, s, p));
            }
        }
        r
    }
}

/// The cell the snake starts on: the middle of the board.
pub open spec fn start_cell(w: int, h: int) -> Point {
    Point { x: (w / 2) as i32, y: (h / 2) as i32 }
}

/// The first food: at (15, 15), moved in to the last playable row or column
/// on a smaller board; where that is the start cell, the first free cell in
/// row-major order.
pub open spec fn start_food(w: int, h: int) -> Point {
    let preferred = Point {
        x: (if w - 2 < 15 { w - 2 } else { 15 }) as i32,
        y: (if h - 2 < 15 { h - 2 } else { 15 }) as i32,
    };
    if preferred != start_cell(w, h) {
        preferred
    } else if start_cell(w, h) != (Point { x: 1, y: 1 }) {
        Point { x: 1, y: 1 }
    } else if w >= 4 {
        Point { x: 2, y: 1 }
    } else {
        Point { x: 1, y: 2 }
    }
}

impl Game {
    /// A game with a given snake (tail first, head last) heading `direction`,
    /// and food at `food`; score zero, not paused.
    pub fn with_snake(
        width: i32,
        height: i32,
        tick_ms: u64,
        body: Vec<Point>,
        direction: Direction,
        food: Point,
    ) -> (r: Result<Game, ConfigError>)
        ensures
            r == Err::<Game, ConfigError>(ConfigError::BadSize) <==> !size_ok(width as int, height as int),
            r == Err::<Game, ConfigError>(ConfigError::BadSpeed) <==> size_ok(width as int, height as int)
                && !speed_ok(tick_ms as int),
            r == Err::<Game, ConfigError>(ConfigError::BadSnake) <==> size_ok(width as int, height as int)
                && speed_ok(tick_ms as int) && !snake_ok(width as int, height as int, body@),
            r == Err::<Game, ConfigError>(ConfigError::BadFood) <==> size_ok(width as int, height as int)
                && speed_ok(tick_ms as int) && snake_ok(width as int, height as int, body@)
                && !free_cell(width as int, height as int, body@, food),
            r.is_ok() <==> size_ok(width as int, height as int) && speed_ok(tick_ms as int)
                && snake_ok(width as int, height as int, body@)
                && free_cell(width as int, height as int, body@, food),
            r matches Ok(g) ==> g.wf() && g@ == (GameView {
                width: width as int,
                height: height as int,
                snake: body@,
                food,
                score: 0,
                tick_ms: tick_ms as int,
                paused: false,
                direction,
                pending: direction,
                outcome: None,
            }),
    {
        if width < 3 || width > MAX_SIDE || height < 3 || height > MAX_SIDE || (width == 3 && height == 3) {
            return Err(ConfigError::BadSize);
        }
        if tick_ms < MIN_TICK_MS || tick_ms > MAX_TICK_MS {
            return Err(ConfigError::BadSpeed);
        }
        let ghost w = width as int;
        let ghost h = height as int;
        if body.len() == 0 {
            return Err(ConfigError::BadSnake);
        }
        proof {
            lemma_index_bounds(w, h, Point { x: 0, y: 0 });
        }
        let cells = (width as usize) * (height as usize);
        let mut occupied: Vec<bool> = Vec::new();
        while occupied.len() < cells
            invariant
                cells == w * h,
                occupied@.len() <= cells,
                forall|k: int| 0 <= k < occupied@.len() ==> !#[trigger] occupied@[k],
            decreases cells - occupied@.len(),
        {
            occupied.push(false);
        }
        let mut deque: VecDeque<Point> = VecDeque::new();
        assert forall|p: Point| in_grid(w, h, p) implies #[trigger] occupied@[cell_index(w, p)] == deque@.contains(
            p,
        ) by {
            lemma_index_bounds(w, h, p);
        }
        let mut i: usize = 0;
        while i < body.len()
            invariant
                size_ok(w, h),
                speed_ok(tick_ms as int),
                w == width,
                h == height,
                0 <= i <= body@.len(),
                occupied@.len() == w * h,
                deque@ == body@.subrange(0, i as int),
                deque@.no_duplicates(),
                forall|k: int| 0 <= k < deque@.len() ==> interior(w, h, #[trigger] deque@[k]),
                forall|k: int| 0 <= k < deque@.len() - 1 ==> adjacent(#[trigger] deque@[k], deque@[k + 1]),
                forall|p: Point| in_grid(w, h, p) ==> #[trigger] occupied@[cell_index(w, p)] == deque@.contains(p),
            decreases body@.len() - i,
        {
            let p = body[i];
            if p.x < 1 || p.x >= width - 1 || p.y < 1 || p.y >= height - 1 {
                assert(!interior(w, h, body@[i as int]));
                return Err(ConfigError::BadSnake);
            }
            let k = grid_slot(width, height, p);
            if occupied[k] {
                proof {
                    assert(deque@.contains(p));
                    let j = choose|j: int| 0 <= j < deque@.len() && deque@[j] == p;
                    assert(body@[j] == body@[i as int]);
                }
                return Err(ConfigError::BadSnake);
            }
            assert(i > 0 ==> interior(w, h, deque@[i - 1]) && deque@[i - 1] == body@[i - 1]);
            if i > 0 && !neighbours(body[i - 1], p) {
                assert(!adjacent(body@[i - 1], body@[(i - 1) + 1]));
                return Err(ConfigError::BadSnake);
            }
            proof {
                lemma_push_contains(deque@, p);
                lemma_grid_update(w, h, occupied@, deque@, deque@.push(p), p, true);
            }
            occupied.set(k, true);
            deque.push_back(p);
            assert(deque@ =~= body@.subrange(0, i + 1));
            i = i + 1;
        }
        assert(deque@ =~= body@);
        if food.x < 1 || food.x >= width - 1 || food.y < 1 || food.y >= height - 1 {
            return Err(ConfigError::BadFood);
        }
        if occupied[grid_slot(width, height, food)] {
            return Err(ConfigError::BadFood);
        }
        Ok(Game {
            width,
            height,
            body: deque,
            occupied,
            food,
            score: 0,
            tick_ms,
            paused: false,
            direction,
            next_direction: direction,
            outcome: None,
        })
    }

    /// A new game: a one-cell snake in the middle of the board heading right,
    /// food at `start_food`, score zero.
    pub fn new(width: i32, height: i32, tick_ms: u64) -> (r: Result<Game, ConfigError>)
        ensures
            r == Err::<Game, ConfigError>(ConfigError::BadSize) <==> !size_ok(width as int, height as int),
            r == Err::<Game, ConfigError>(ConfigError::BadSpeed) <==> size_ok(width as int, height as int)
                && !speed_ok(tick_ms as int),
            r.is_ok() <==> size_ok(width as int, height as int) && speed_ok(tick_ms as int),
            r matches Ok(g) ==> g.wf() && g@ == (GameView {
                width: width as int,
                height: height as int,
                snake: seq![start_cell(width as int, height as int)],
                food: start_food(width as int, height as int),
                score: 0,
                tick_ms: tick_ms as int,
                paused: false,
                direction: Direction::Right,
                pending: Direction::Right,
                outcome: None,
            }),
    {
        if width < 3 || width > MAX_SIDE || height < 3 || height > MAX_SIDE || (width == 3 && height == 3) {
            return Err(ConfigError::BadSize);
        }
        let start = Point { x: width / 2, y: height / 2 };
        let preferred = Point {
            x: if width - 2 < 15 { width - 2 } else { 15 },
            y: if height - 2 < 15 { height - 2 } else { 15 },
        };
        let food = if preferred != start {
            preferred
        } else if start != (Point { x: 1, y: 1 }) {
            Point { x: 1, y: 1 }
        } else if width >= 4 {
            Point { x: 2, y: 1 }
        } else {
            Point { x: 1, y: 2 }
        };
        let mut body: Vec<Point> = Vec::new();
        body.push(start);
        proof {
            assert(body@ =~= seq![start]);
            assert(!body@.contains(food)) by {
                if body@.contains(food) {
                    let j = choose|j: int| 0 <= j < body@.len() && body@[j] == food;
                    assert(body@[0] == food);
                }
            }
        }
        Game::with_snake(width, height, tick_ms, body, Direction::Right, food)
    }
}

impl Game {
    /// Where food would go, given candidate cells drawn at random: the first
    /// free candidate, or else the first free cell in row-major order; `None`
    /// only when the snake covers the whole playable area.
    pub fn place_food(&self, draws: &Vec<Point>) -> (r: Option<Point>)
        requires
            self.wf(),
        ensures
            r == food_choice(self@.width, self@.height, self@.snake, draws@),
            r.is_none() == board_full(self@.width, self@.height, self@.snake),
            r matches Some(p) ==> free_cell(self@.width, self@.height, self@.snake, p),
    {
        self.pick_free(draws)
    }

    /// One tick of the simulation, with `draws` as the random candidates for
    /// new food. The pending direction is committed, the head moves one cell,
    /// and the move ends the game at a wall or on the snake's own body (the
    /// pre-move body, tail included), eats the food, or drops the tail.
    pub fn advance(&mut self, draws: &Vec<Point>) -> (r: TickResult)
        requires
            old(self).wf(),
        ensures
            final(self).wf(),
            old(self)@.tick_step(final(self)@, r),
            r == TickResult::AteFood ==> Some(final(self)@.food) == food_choice(
                final(self)@.width,
                final(self)@.height,
                final(self)@.snake,
                draws@,
            ),
    {
        if let Some(reason) = self.outcome {
            return TickResult::GameOver(reason);
        }
        let ghost w = self.width as int;
        let ghost h = self.height as int;
        let ghost s0 = self.body@;
        let ghost grid0 = self.occupied@;
        proof {
            lemma_unit_vector(self.next_direction);
        }
        self.direction = self.next_direction;
        let (dx, dy) = self.direction.vector();
        let n = self.body.len();
        let head = self.body[n - 1];
        assert(interior(w, h, s0[n - 1]));
        proof {
            lemma_step_adjacent(head, self.direction);
        }
        let nh = Point { x: head.x + dx, y: head.y + dy };
        if nh.x < 1 || nh.x >= self.width - 1 || nh.y < 1 || nh.y >= self.height - 1 {
            self.outcome = Some(EndReason::HitWall);
            return TickResult::GameOver(EndReason::HitWall);
        }
        let k = grid_slot(self.width, self.height, nh);
        if self.occupied[k] {
            self.outcome = Some(EndReason::HitSelf);
            return TickResult::GameOver(EndReason::HitSelf);
        }
        let ghost grown = s0.push(nh);
        proof {
            lemma_push_contains(s0, nh);
            lemma_grid_update(w, h, grid0, s0, grown, nh, true);
            lemma_grow_ok(w, h, s0, nh);
        }
        self.body.push_back(nh);
        self.occupied.set(k, true);
        if nh == self.food {
            self.score = self.score + 1;
            match self.pick_free(draws) {
                Some(f) => {
                    self.food = f;
                    TickResult::AteFood
                },
                None => {
                    self.outcome = Some(EndReason::BoardFull);
                    TickResult::GameOver(EndReason::BoardFull)
                },
            }
        } else {
            let tail = self.body.pop_front().unwrap();
            let t = grid_slot(self.width, self.height, tail);
            proof {
                assert(interior(w, h, grown[0]));
                lemma_drop_first_contains(grown);
                lemma_grid_update(w, h, grid0.update(cell_index(w, nh), true), grown, grown.drop_first(), tail, false);
                lemma_shrink_ok(w, h, grown);
                assert(grown.drop_first() =~= s0.drop_first().push(nh));
                assert(self.body@ =~= grown.drop_first());
            }
            self.occupied.set(t, false);
            TickResult::Continue { vacated: tail }
        }
    }

    /// Whether the next move would land on the food.
    fn heads_for_food(&self) -> (r: bool)
        requires
            self.wf(),
        ensures
            r == (self@.next_head() == self@.food),
    {
        let (dx, dy) = self.next_direction.vector();
        let n = self.body.len();
        let head = self.body[n - 1];
        assert(interior(self.width as int, self.height as int, self.body@[n - 1]));
        head.x + dx == self.food.x && head.y + dy == self.food.y
    }

    /// One tick of the simulation, drawing random cells for new food when
    /// the snake is about to eat.
    pub fn tick(&mut self) -> (r: TickResult)
        requires
            old(self).wf(),
        ensures
            final(self).wf(),
            old(self)@.tick_step(final(self)@, r),
    {
        let draws = if self.outcome.is_none() && self.heads_for_food() {
            random_cells(self.width, self.height)
        } else {
            Vec::new()
        };
        self.advance(&draws)
    }

    /// Carries out an intent: quit, pause or resume, change speed, or queue
    /// a turn for the next tick. Once the session has ended nothing changes.
    pub fn apply_intent(&mut self, intent: Intent)
        requires
            old(self).wf(),
        ensures
            final(self).wf(),
            final(self)@ == old(self)@.after_intent(intent),
    {
        if self.outcome.is_some() {
            return;
        }
        match intent {
            Intent::Quit => {
                self.outcome = Some(EndReason::Quit);
            },
            Intent::TogglePause => {
                self.paused = !self.paused;
            },
            Intent::SpeedUp => {
                self.tick_ms = speed_up(self.tick_ms);
            },
            Intent::SlowDown => {
                self.tick_ms = slow_down(self.tick_ms);
            },
            Intent::ChangeDirection(d) => {
                if d != self.direction.opposite() {
                    self.next_direction = d;
                }
            },
            Intent::Ignore => {},
        }
    }

    /// Interprets a key press against the direction in effect and carries
    /// out the resulting intent, which it returns.
    pub fn handle_key(&mut self, key: Key) -> (r: Intent)
        requires
            old(self).wf(),
        ensures
            r == intent_of(key, old(self)@.direction),
            final(self).wf(),
            final(self)@ == old(self)@.after_intent(r),
    {
        let intent = interpret(key, self.direction);
        self.apply_intent(intent);
        intent
    }

    /// A well-formed game satisfies the abstract invariant.
    pub proof fn lemma_wf_valid(&self)
        requires
            self.wf(),
        ensures
            self@.valid(),
    {
    }

    /// Whether a tick is due after `elapsed_ms` milliseconds since the last
    /// one: never while paused or after the session has ended.
    pub fn tick_due(&self, elapsed_ms: u64) -> (r: bool)
        ensures
            r == (self@.outcome.is_none() && !self@.paused && elapsed_ms >= self@.tick_ms),
    {
        self.outcome.is_none() && !self.paused && elapsed_ms >= self.tick_ms
    }
}

impl Game {
    pub fn width(&self) -> (r: i32)
        ensures
            r == self@.width,
    {
        self.width
    }

    pub fn height(&self) -> (r: i32)
        ensures
            r == self@.height,
    {
        self.height
    }

    pub fn score(&self) -> (r: u64)
        ensures
            r == self@.score,
    {
        self.score
    }

    pub fn tick_ms(&self) -> (r: u64)
        ensures
            r == self@.tick_ms,
    {
        self.tick_ms
    }

    pub fn is_paused(&self) -> (r: bool)
        ensures
            r == self@.paused,
    {
        self.paused
    }

    pub fn direction(&self) -> (r: Direction)
        ensures
            r == self@.direction,
    {
        self.direction
    }

    pub fn pending_direction(&self) -> (r: Direction)
        ensures
            r == self@.pending,
    {
        self.next_direction
    }

    /// Where the food is: off the snake unless the session ended with
    /// `BoardFull`, when it is the head cell (see `GameView::food`).
    pub fn food(&self) -> (r: Point)
        ensures
            r == self@.food,
    {
        self.food
    }

    pub fn outcome(&self) -> (r: Option<EndReason>)
        ensures
            r == self@.outcome,
    {
        self.outcome
    }

    pub fn snake_len(&self) -> (r: usize)
        ensures
            r == self@.snake.len(),
    {
        self.body.len()
    }

    pub fn head(&self) -> (r: Point)
        requires
            self.wf(),
        ensures
            r == self@.head(),
    {
        self.body[self.body.len() - 1]
    }

    /// The snake's cells, tail first, head last.
    pub fn snake_cells(&self) -> (r: Vec<Point>)
        ensures
            r@ == self@.snake,
    {
        let mut r: Vec<Point> = Vec::new();
        let mut i: usize = 0;
        while i < self.body.len()
            invariant
                0 <= i <= self.body@.len(),
                r@ == self.body@.subrange(0, i as int),
            decreases self.body@.len() - i,
        {
            r.push(self.body[i]);
            assert(r@ =~= self.body@.subrange(0, i + 1));
            i = i + 1;
        }
        assert(r@ =~= self.body@);
        r
    }
}

} // verus!
