//! The snake demo game on a 51 x 30 grid of 20-pixel blocks.
use vstd::prelude::*;
use vstd::set_lib::{lemma_int_range, lemma_len_subset, set_int_range};
use crate::gpio::PullMode;

verus! {

/// Width of the playing field, in blocks.
pub const GRID_WIDTH: i8 = 51;
/// Height of the playing field, in blocks.
pub const GRID_HEIGHT: i8 = 30;
/// Number of cells of the playing field.
pub const GRID_CELLS: usize = 1530;

/// Cells of the snake, head first, held in a fixed-capacity vector of
/// `GRID_CELLS` cells.
#[verifier::external_body]
pub struct SnakeBody {
    cells: heapless::Vec<(i8, i8), 1530>,
}

/// The cells that a snake body holds, head first.
pub uninterp spec fn body_cells(body: SnakeBody) -> Seq<(i8, i8)>;

impl SnakeBody {
    /// `heapless::Vec::from_array`: a vector holding the cells of the array, in order.
    #[verifier::external_body]
    fn from_array(cells: [(i8, i8); 3]) -> (r: Self)
        ensures
            body_cells(r) == cells@,
    {
        SnakeBody { cells: heapless::Vec::from_array(cells) }
    }

    /// `heapless::Vec::len`: the number of cells held.
    #[verifier::external_body]
    fn len(&self) -> (r: usize)
        ensures
            r == body_cells(*self).len(),
    {
        self.cells.len()
    }

    /// Indexing through `Deref<Target = [T]>`: the cell at position `i`.
    #[verifier::external_body]
    fn get(&self, i: usize) -> (r: (i8, i8))
        requires
            i < body_cells(*self).len(),
        ensures
            r == body_cells(*self)[i as int],
    {
        self.cells[i]
    }

    /// `<[T]>::contains` through `Deref`: whether some cell equals `p`.
    #[verifier::external_body]
    fn contains(&self, p: &(i8, i8)) -> (r: bool)
        ensures
            r == body_cells(*self).contains(*p),
    {
        self.cells.contains(p)
    }

    /// `heapless::Vec::push`: appends `p` if fewer than 1530 cells are held,
    /// and hands `p` back otherwise.
    #[verifier::external_body]
    fn push(&mut self, p: (i8, i8)) -> (r: Result<(), (i8, i8)>)
        ensures
            r == (if body_cells(*old(self)).len() < 1530 { Ok::<(), (i8, i8)>(()) } else { Err(p) }),
            body_cells(*final(self)) == (if body_cells(*old(self)).len() < 1530 {
                body_cells(*old(self)).push(p)
            } else {
                body_cells(*old(self))
            }),
    {
        self.cells.push(p)
    }

    /// `<[T]>::rotate_right` through `DerefMut`: the last `k` cells move to the front.
    #[verifier::external_body]
    fn rotate_right(&mut self, k: usize)
        requires
            k <= body_cells(*old(self)).len(),
        ensures
            body_cells(*final(self)) == body_cells(*old(self)).subrange(body_cells(*old(self)).len() - k, body_cells(*old(self)).len() as int)
                + body_cells(*old(self)).subrange(0, body_cells(*old(self)).len() - k),
    {
        self.cells.rotate_right(k)
    }

    /// Assignment through `IndexMut` of `DerefMut`: replaces the cell at `i`.
    #[verifier::external_body]
    fn set(&mut self, i: usize, p: (i8, i8))
        requires
            i < body_cells(*old(self)).len(),
        ensures
            body_cells(*final(self)) == body_cells(*old(self)).update(i as int, p),
    {
        self.cells[i] = p;
    }
}

/// Direction in which the snake moves.
#[derive(Clone, Copy, Debug, PartialEq, Eq, Structural)]
pub enum Dir {
    Up,
    Down,
    Left,
    Right,
}

/// Whether two directions are opposite.
pub open spec fn opposite(a: Dir, b: Dir) -> bool {
    ||| a == Dir::Up && b == Dir::Down
    ||| a == Dir::Down && b == Dir::Up
    ||| a == Dir::Left && b == Dir::Right
    ||| a == Dir::Right && b == Dir::Left
}

/// The state of a game.
pub ghost struct SnakeState {
    pub body: Seq<(i8, i8)>,
    pub dir: Dir,
    pub food: (i8, i8),
    pub score: u32,
    pub over: bool,
}

/// Whether a cell lies on the playing field.
pub open spec fn in_grid(x: int, y: int) -> bool {
    0 <= x < 51 && 0 <= y < 30
}

/// The cell next to `p` in direction `d` (it may lie off the field).
pub open spec fn neighbour(p: (i8, i8), d: Dir) -> (int, int) {
    match d {
        Dir::Up => (p.0 as int, p.1 - 1),
        Dir::Down => (p.0 as int, p.1 + 1),
        Dir::Left => (p.0 - 1, p.1 as int),
        Dir::Right => (p.0 + 1, p.1 as int),
    }
}

/// Where the food goes after it is eaten: cell number `(n * 301 + 7) % 1530`
/// of the field, numbered row by row, where `n` is the number of the cell that
/// it was eaten on.
pub open spec fn next_food(food: (i8, i8)) -> (i8, i8) {
    let j = ((food.1 * 51 + food.0) * 301 + 7) % 1530;
    ((j % 51) as i8, (j / 51) as i8)
}

/// The game at the start.
pub open spec fn initial_state() -> SnakeState {
    SnakeState {
        body: seq![(12i8, 10i8), (11i8, 10i8), (10i8, 10i8)],
        dir: Dir::Right,
        food: (20, 15),
        score: 0,
        over: false,
    }
}

/// One step of the game: the head moves one cell on; leaving the field or
/// running into the body ends the game; reaching the food makes the snake one
/// cell longer, scores 10 and moves the food; otherwise the tail follows.
/// A finished game does not change.
pub open spec fn step(s: SnakeState) -> SnakeState {
    if s.over {
        s
    } else {
        let h = neighbour(s.body[0], s.dir);
        let head = (h.0 as i8, h.1 as i8);
        if !in_grid(h.0, h.1) || s.body.contains(head) {
            SnakeState { over: true, ..s }
        } else if head == s.food {
            SnakeState {
                body: seq![head] + s.body,
                score: (s.score + 10) as u32,
                food: next_food(s.food),
                ..s
            }
        } else {
            SnakeState { body: seq![head] + s.body.drop_last(), ..s }
        }
    }
}

/// A change of direction: any direction but the opposite one is taken.
pub open spec fn turn(s: SnakeState, d: Dir) -> SnakeState {
    if opposite(s.dir, d) {
        s
    } else {
        SnakeState { dir: d, ..s }
    }
}

/// What every reachable game satisfies: the snake has at least its three
/// starting cells, lies on the field and never covers a cell twice, the food
/// lies on the field, and the score is 10 per eaten food.
pub open spec fn wf_state(s: SnakeState) -> bool {
    &&& 3 <= s.body.len()
    &&& forall|i: int| 0 <= i < s.body.len() ==> in_grid(#[trigger] s.body[i].0 as int, s.body[i].1 as int)
    &&& s.body.no_duplicates()
    &&& in_grid(s.food.0 as int, s.food.1 as int)
    &&& s.score == 10 * (s.body.len() - 3)
}

/// Number of a cell of the field, row by row.
pub open spec fn cell_number(p: (i8, i8)) -> int {
    p.1 * 51 + p.0
}

/// Distinct cells of the field are at most as many as the field has.
pub proof fn lemma_field_capacity(cells: Seq<(i8, i8)>)
    requires
        cells.no_duplicates(),
        forall|i: int| 0 <= i < cells.len() ==> in_grid(#[trigger] cells[i].0 as int, cells[i].1 as int),
    ensures
        cells.len() <= 1530,
{
    let numbers = cells.map_values(|p: (i8, i8)| cell_number(p));
    assert forall|i: int, j: int| 0 <= i < numbers.len() && 0 <= j < numbers.len() && i != j
        implies numbers[i] != numbers[j] by {
        assert(in_grid(cells[i].0 as int, cells[i].1 as int));
        assert(in_grid(cells[j].0 as int, cells[j].1 as int));
        assert(cells[i] != cells[j]);
    }
    assert(numbers.no_duplicates());
    numbers.unique_seq_to_set();
    lemma_int_range(0, 1530);
    assert forall|v: int| numbers.to_set().contains(v) implies set_int_range(0, 1530).contains(v) by {
        let i = choose|i: int| 0 <= i < numbers.len() && numbers[i] == v;
        assert(in_grid(cells[i].0 as int, cells[i].1 as int));
    }
    lemma_len_subset(numbers.to_set(), set_int_range(0, 1530));
}

/// A step keeps a reachable game reachable.
pub proof fn lemma_step_wf(s: SnakeState)
    requires
        wf_state(s),
    ensures
        wf_state(step(s)),
{
    if !s.over {
        let h = neighbour(s.body[0], s.dir);
        let head = (h.0 as i8, h.1 as i8);
        assert(in_grid(s.body[0].0 as int, s.body[0].1 as int));
        lemma_field_capacity(s.body);
        if in_grid(h.0, h.1) && !s.body.contains(head) {
            let t = step(s);
            assert(head.0 as int == h.0 && head.1 as int == h.1);
            if head == s.food {
                let b = seq![head] + s.body;
                assert forall|i: int| 0 <= i < b.len() implies in_grid(#[trigger] b[i].0 as int, b[i].1 as int) by {
                    if i > 0 {
                        assert(b[i] == s.body[i - 1]);
                    }
                }
                assert(b.no_duplicates()) by {
                    assert forall|i: int, j: int| 0 <= i < b.len() && 0 <= j < b.len() && i != j implies b[i] != b[j] by {
                        if i == 0 {
                            assert(b[j] == s.body[j - 1]);
                        } else if j == 0 {
                            assert(b[i] == s.body[i - 1]);
                        }
                    }
                }
                let food = s.food;
                let n = (food.1 * 51 + food.0) * 301 + 7;
                assert(0 <= n) by (nonlinear_arith)
                    requires n == (food.1 * 51 + food.0) * 301 + 7, 0 <= food.0 < 51, 0 <= food.1 < 30;
                let j = n % 1530;
                assert(in_grid(next_food(food).0 as int, next_food(food).1 as int));
                assert(t.body =~= b);
                assert(t.score == 10 * (t.body.len() - 3));
                assert(wf_state(t));
            } else {
                let b = seq![head] + s.body.drop_last();
                assert forall|i: int| 0 <= i < b.len() implies in_grid(#[trigger] b[i].0 as int, b[i].1 as int) by {
                    if i > 0 {
                        assert(b[i] == s.body[i - 1]);
                    }
                }
                assert(b.no_duplicates()) by {
                    assert forall|i: int, j: int| 0 <= i < b.len() && 0 <= j < b.len() && i != j implies b[i] != b[j] by {
                        if i == 0 {
                            assert(b[j] == s.body[j - 1]);
                        } else if j == 0 {
                            assert(b[i] == s.body[i - 1]);
                        }
                    }
                }
                assert(t.body =~= b);
            }
        }
    }
}

/// The snake game.
pub struct SnakeGame {
    body: SnakeBody,
    dir: Dir,
    food: (i8, i8),
    score: u32,
    over: bool,
}

impl SnakeGame {
    /// The state of this game.
    pub closed spec fn state(&self) -> SnakeState {
        SnakeState {
            body: body_cells(self.body),
            dir: self.dir,
            food: self.food,
            score: self.score,
            over: self.over,
        }
    }

    /// Every game is in a reachable state.
    #[verifier::type_invariant]
    spec fn reachable(self) -> bool {
        wf_state(self.state())
    }

    /// A new game: a snake of three cells at (10..12, 10) heading right, and
    /// the food at (20, 15).
    pub fn new() -> (r: Self)
        ensures
            r.state() == initial_state(),
    {
        let ghost s = SnakeState {
            body: seq![(12i8, 10i8), (11i8, 10i8), (10i8, 10i8)],
            dir: Dir::Right,
            food: (20, 15),
            score: 0,
            over: false,
        };
        proof {
            let b = s.body;
            assert(b.no_duplicates()) by {
                assert forall|i: int, j: int| 0 <= i < b.len() && 0 <= j < b.len() && i != j implies b[i] != b[j] by {
                }
            }
            assert(wf_state(s));
        }
        let body = SnakeBody::from_array([(12, 10), (11, 10), (10, 10)]);
        proof {
            assert(body_cells(body) =~= s.body);
        }
        let r = Self {
            body,
            dir: Dir::Right,
            food: (20, 15),
            score: 0,
            over: false,
        };
        r
    }

    /// Turns the snake, unless `d` points back into it.
    pub fn input(&mut self, d: Dir)
        ensures
            final(self).state() == turn(old(self).state(), d),
    {
        proof {
            use_type_invariant(&*self);
        }
        match (self.dir, d) {
            (Dir::Up, Dir::Down) | (Dir::Down, Dir::Up) | (Dir::Left, Dir::Right) | (Dir::Right, Dir::Left) => {},
            _ => self.dir = d,
        }
    }

    /// Advances the game by one step.
    pub fn update(&mut self)
        ensures
            final(self).state() == step(old(self).state()),
    {
        proof {
            use_type_invariant(&*self);
            lemma_step_wf(self.state());
        }
        if self.over {
            return;
        }
        let mut game = SnakeGame::new();
        core::mem::swap(self, &mut game);
        proof {
            use_type_invariant(&game);
        }
        let ghost s = game.state();
        let SnakeGame { mut body, dir, mut food, mut score, over } = game;
        let mut head = body.get(0);
        proof {
            assert(in_grid(head.0 as int, head.1 as int));
        }
        match dir {
            Dir::Up => head.1 = head.1 - 1,
            Dir::Down => head.1 = head.1 + 1,
            Dir::Left => head.0 = head.0 - 1,
            Dir::Right => head.0 = head.0 + 1,
        }
        if head.0 < 0 || head.0 >= GRID_WIDTH || head.1 < 0 || head.1 >= GRID_HEIGHT || body.contains(&head) {
            *self = SnakeGame { body, dir, food, score, over: true };
            return;
        }
        if head.0 == food.0 && head.1 == food.1 {
            proof {
                lemma_field_capacity(body_cells(body).push(head));
            }
            let _ = body.push(head);
            score = score + 10;
            let i = (food.1 as u32 * 51) + food.0 as u32;
            let j = i.wrapping_mul(301).wrapping_add(7) % 1530;
            food.0 = (j % 51) as i8;
            food.1 = (j / 51) as i8;
        }
        body.rotate_right(1);
        body.set(0, head);
        proof {
            assert(body_cells(body) =~= step(s).body);
        }
        *self = SnakeGame { body, dir, food, score, over };
    }

    /// The score: 10 per food eaten.
    pub fn score(&self) -> (r: u32)
        ensures
            r == self.state().score,
    {
        self.score
    }

    /// Whether the game is over.
    pub fn is_over(&self) -> (r: bool)
        ensures
            r == self.state().over,
    {
        self.over
    }

    /// The direction in which the snake moves.
    pub fn direction(&self) -> (r: Dir)
        ensures
            r == self.state().dir,
    {
        self.dir
    }

    /// The cell of the food.
    pub fn food(&self) -> (r: (i8, i8))
        ensures
            r == self.state().food,
    {
        self.food
    }

    /// The length of the snake, in cells.
    pub fn body_len(&self) -> (r: usize)
        ensures
            r == self.state().body.len(),
    {
        self.body.len()
    }

    /// The cell of the snake at position `i`, counted from the head.
    pub fn segment(&self, i: usize) -> (r: (i8, i8))
        requires
            i < self.state().body.len(),
        ensures
            r == self.state().body[i as int],
    {
        self.body.get(i)
    }
}

/// A text that the snake screen shows.
#[derive(Clone, Copy, Debug, PartialEq, Eq, Structural)]
pub enum ScreenText {
    /// "SCORE: " and the score.
    Score(u32),
    /// "GAME OVER".
    GameOver,
    /// "PRESS F TO RESTART".
    PressToRestart,
}

/// One drawing operation of the snake screen, in pixels.
#[derive(Clone, Copy, Debug, PartialEq, Eq, Structural)]
pub enum DrawOp {
    /// Fill the whole screen black.
    Clear,
    /// Draw a text with its top-left corner at (`x`, `y`).
    Text { x: u32, y: u32, text: ScreenText },
    /// Fill the 20 x 20 block with its top-left corner at (`x`, `y`): red
    /// for the food, green for a cell of the snake.
    Block { x: u32, y: u32, food: bool },
}

/// The block that shows cell `p`.
pub open spec fn block_op(p: (i8, i8), food: bool) -> DrawOp {
    DrawOp::Block { x: (p.0 * 20) as u32, y: (p.1 * 20) as u32, food }
}

/// The screen of a game: cleared, the score at (450, 0), then either the
/// two lines that say the game is over, or the food and every cell of the
/// snake, head first.
pub open spec fn screen_ops(s: SnakeState) -> Seq<DrawOp> {
    let top = seq![DrawOp::Clear, DrawOp::Text { x: 450, y: 0, text: ScreenText::Score(s.score) }];
    if s.over {
        top + seq![
            DrawOp::Text { x: 450, y: 280, text: ScreenText::GameOver },
            DrawOp::Text { x: 410, y: 300, text: ScreenText::PressToRestart },
        ]
    } else {
        top + seq![block_op(s.food, true)] + Seq::new(s.body.len(), |i: int| block_op(s.body[i], false))
    }
}

/// The screen shows the whole game: after clearing it and writing the score
/// at (450, 0), a finished game shows only the two game-over lines; a running
/// one shows the red food block and then one green block per cell of the
/// snake, head first, each at 20 times its cell's coordinates; nothing else.
pub proof fn lemma_screen_shows_game(s: SnakeState)
    requires
        wf_state(s),
    ensures
        ({
            let ops = screen_ops(s);
            &&& ops[0] == DrawOp::Clear
            &&& ops[1] == DrawOp::Text { x: 450, y: 0, text: ScreenText::Score(s.score) }
            &&& s.over ==> ops.len() == 4
                && ops[2] == DrawOp::Text { x: 450, y: 280, text: ScreenText::GameOver }
                && ops[3] == DrawOp::Text { x: 410, y: 300, text: ScreenText::PressToRestart }
            &&& !s.over ==> {
                &&& ops.len() == 3 + s.body.len()
                &&& ops[2] matches DrawOp::Block { x, y, food }
                    && food && x == 20 * s.food.0 && y == 20 * s.food.1
                &&& forall|i: int| 0 <= i < s.body.len() ==>
                    ((#[trigger] ops[3 + i]) matches DrawOp::Block { x, y, food }
                        && !food && x == 20 * s.body[i].0 && y == 20 * s.body[i].1)
            }
        }),
{
    let ops = screen_ops(s);
    if !s.over {
        assert forall|i: int| 0 <= i < s.body.len() implies
            ((#[trigger] ops[3 + i]) matches DrawOp::Block { x, y, food }
                && !food && x == 20 * s.body[i].0 && y == 20 * s.body[i].1) by {
            assert(in_grid(s.body[i].0 as int, s.body[i].1 as int));
        }
    }
}

/// The block that shows a cell of the field.
fn block(p: (i8, i8), food: bool) -> (r: DrawOp)
    requires
        in_grid(p.0 as int, p.1 as int),
    ensures
        r == block_op(p, food),
{
    DrawOp::Block { x: p.0 as u32 * 20, y: p.1 as u32 * 20, food }
}

impl SnakeGame {
    /// The drawing operations that show this game, in order.
    pub fn draw(&self) -> (ops: Vec<DrawOp>)
        ensures
            ops@ == screen_ops(self.state()),
    {
        proof {
            use_type_invariant(self);
        }
        let mut ops: Vec<DrawOp> = Vec::new();
        ops.push(DrawOp::Clear);
        ops.push(DrawOp::Text { x: 450, y: 0, text: ScreenText::Score(self.score) });
        if self.over {
            ops.push(DrawOp::Text { x: 450, y: 280, text: ScreenText::GameOver });
            ops.push(DrawOp::Text { x: 410, y: 300, text: ScreenText::PressToRestart });
            proof {
                assert(ops@ =~= screen_ops(self.state()));
            }
            return ops;
        }
        ops.push(block(self.food, true));
        let n = self.body.len();
        let ghost s = self.state();
        let ghost top = ops@;
        let mut i: usize = 0;
        while i < n
            invariant
                s == self.state(),
                wf_state(s),
                n == s.body.len(),
                i <= n,
                top == seq![
                    DrawOp::Clear,
                    DrawOp::Text { x: 450, y: 0, text: ScreenText::Score(s.score) },
                    block_op(s.food, true),
                ],
                ops@ == top + Seq::new(i as nat, |j: int| block_op(s.body[j], false)),
            decreases n - i,
        {
            let p = self.body.get(i);
            ops.push(block(p, false));
            proof {
                assert(ops@ =~= top + Seq::new((i + 1) as nat, |j: int| block_op(s.body[j], false)));
            }
            i = i + 1;
        }
        proof {
            assert(ops@ =~= screen_ops(s));
        }
        ops
    }
}

/// A finished game stays as it is: steps and turns leave it over, and a step
/// changes nothing at all.
pub proof fn lemma_game_over_is_final(s: SnakeState, d: Dir)
    requires
        s.over,
    ensures
        step(s) == s,
        turn(s, d).over,
{
}

/// A turn never makes the snake reverse into itself: the new direction is
/// never opposite to the old one, and it is either the old one or the
/// requested one.
pub proof fn lemma_turn_never_reverses(s: SnakeState, d: Dir)
    ensures
        !opposite(s.dir, turn(s, d).dir),
        turn(s, d).dir == s.dir || turn(s, d).dir == d,
        turn(s, d).body == s.body && turn(s, d).food == s.food && turn(s, d).score == s.score
            && turn(s, d).over == s.over,
{
}

/// In a step of a running game that does not end it, the snake grows by one
/// cell exactly when it eats, the score grows by 10 exactly then, and every
/// cell but the new head is a cell that the snake covered before, in order.
pub proof fn lemma_step_moves_body(s: SnakeState)
    requires
        wf_state(s),
        !s.over,
        !step(s).over,
    ensures
        ({
            let t = step(s);
            &&& t.body.len() == s.body.len() + 1 || t.body.len() == s.body.len()
            &&& t.score == s.score + 10 * (t.body.len() - s.body.len())
            &&& forall|i: int| 1 <= i < t.body.len() ==> #[trigger] t.body[i] == s.body[i - 1]
            &&& t.body[0] == (neighbour(s.body[0], s.dir).0 as i8, neighbour(s.body[0], s.dir).1 as i8)
        }),
{
    lemma_step_wf(s);
}

/// The main loop of the snake demo: every tenth pass (each pass lasts 10 ms)
/// advances the game, and the buttons are read after every pass.
pub struct SnakeRunner {
    pub game: SnakeGame,
    pub tick: i32,
}

/// The game after the buttons are read, given their pin levels: the pins are
/// pulled up, so a low level means pressed.  Up, left, down and right are
/// taken in that order, so that a later one can override an earlier one.
pub open spec fn after_buttons(s: SnakeState, up: bool, left: bool, down: bool, right: bool) -> SnakeState {
    let s1 = if !up { turn(s, Dir::Up) } else { s };
    let s2 = if !left { turn(s1, Dir::Left) } else { s1 };
    let s3 = if !down { turn(s2, Dir::Down) } else { s2 };
    if !right { turn(s3, Dir::Right) } else { s3 }
}

impl SnakeRunner {
    /// A new game at pass 0.
    pub fn new() -> (r: Self)
        ensures
            r.game.state() == initial_state(),
            r.tick == 0,
    {
        SnakeRunner { game: SnakeGame::new(), tick: 0 }
    }

    /// The pull resistors set before the first pass: the buttons on pins 0
    /// to 3 and 8 are pulled up.
    pub fn button_pulls() -> (r: Vec<(usize, PullMode)>)
        ensures
            r@ == seq![
                (0usize, PullMode::PullUp),
                (1usize, PullMode::PullUp),
                (2usize, PullMode::PullUp),
                (3usize, PullMode::PullUp),
                (8usize, PullMode::PullUp),
            ],
    {
        let mut r: Vec<(usize, PullMode)> = Vec::new();
        r.push((0, PullMode::PullUp));
        r.push((1, PullMode::PullUp));
        r.push((2, PullMode::PullUp));
        r.push((3, PullMode::PullUp));
        r.push((8, PullMode::PullUp));
        r
    }

    /// Starts a pass: every tenth pass advances the game, and then the game
    /// must be drawn again (the returned flag).
    pub fn frame(&mut self) -> (redraw: bool)
        requires
            old(self).tick < i32::MAX,
        ensures
            redraw == (old(self).tick % 10 == 0),
            final(self).game.state() == (if redraw { step(old(self).game.state()) } else { old(self).game.state() }),
            final(self).tick == old(self).tick + 1,
    {
        let redraw = self.tick % 10 == 0;
        if redraw {
            self.game.update();
        }
        self.tick = self.tick + 1;
        redraw
    }

    /// Ends a pass with the pin levels of the buttons: up, left, down, right
    /// and restart.  Pressing restart once the game is over starts a new game
    /// at pass 0.
    pub fn buttons(&mut self, up: bool, left: bool, down: bool, right: bool, restart: bool)
        ensures
            ({
                let s = after_buttons(old(self).game.state(), up, left, down, right);
                if !restart && s.over {
                    final(self).game.state() == initial_state() && final(self).tick == 0
                } else {
                    final(self).game.state() == s && final(self).tick == old(self).tick
                }
            }),
    {
        if !up {
            self.game.input(Dir::Up);
        }
        if !left {
            self.game.input(Dir::Left);
        }
        if !down {
            self.game.input(Dir::Down);
        }
        if !right {
            self.game.input(Dir::Right);
        }
        if !restart && self.game.is_over() {
            self.game = SnakeGame::new();
            self.tick = 0;
        }
    }
}

} // verus!
