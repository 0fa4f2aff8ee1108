//! The snake game: a snake moves on a 40x18 board, grows when it eats and
//! dies on walls and on itself.
use vstd::prelude::*;
use std::collections::VecDeque;
use vstd::set_lib::set_int_range;
use crate::drivers::keyboard::{ascii_of, scancode_to_ascii};
use crate::text::{decimal, decimal_string, push_char};

verus! {

pub const WIDTH: i32 = 40;

pub const HEIGHT: i32 = 18;

/// Number of cells on the board.
pub const CELLS: usize = 720;

/// Seed of the food generator.
pub const SEED: u32 = 0x9F3B_17A5;

/// How many places `spawn_food` draws before it gives up (xorshift32 runs
/// through its states with period 2^32 - 1, so later draws only repeat).
pub const SPAWN_ATTEMPTS: u64 = 0x1_0000_0000;

/// A direction of movement.
#[derive(Clone, Copy, Debug, PartialEq, Eq, Structural)]
pub enum Dir {
    Up,
    Down,
    Left,
    Right,
}

/// One xorshift step.
pub open spec fn xorshift(x: u32) -> u32 {
    let a = x ^ (x << 13u32);
    let b = a ^ (a >> 17u32);
    b ^ (b << 5u32)
}

/// The generator state after `n` steps from `x`.
pub open spec fn rng_after(x: u32, n: nat) -> u32
    decreases n,
{
    if n == 0 {
        x
    } else {
        xorshift(rng_after(x, (n - 1) as nat))
    }
}

/// A xorshift pseudo-random generator: deterministic but varied.
pub struct Rng(pub u32);

impl Rng {
    /// Advances the generator and returns its new state.
    pub fn next(&mut self) -> (r: u32)
        ensures
            r == xorshift(old(self).0),
            final(self).0 == r,
    {
        self.0 = self.0 ^ (self.0 << 13u32);
        self.0 = self.0 ^ (self.0 >> 17u32);
        self.0 = self.0 ^ (self.0 << 5u32);
        self.0
    }
}

/// The `k`-th place `spawn_food` tries from generator state `seed`.
pub open spec fn candidate(seed: u32, k: nat) -> (i32, i32) {
    (
        (rng_after(seed, 2 * k + 1) % 40) as i32,
        (rng_after(seed, 2 * k + 2) % 18) as i32,
    )
}

/// Try `k` is the first whose place is free.
pub open spec fn is_first_free(seed: u32, body: Seq<(i32, i32)>, k: nat) -> bool {
    &&& k < SPAWN_ATTEMPTS
    &&& !body.contains(candidate(seed, k))
    &&& forall|j: nat| j < k ==> body.contains(#[trigger] candidate(seed, j))
}

/// The first try whose place is free, if any within the attempts.
pub open spec fn first_free(seed: u32, body: Seq<(i32, i32)>) -> Option<nat> {
    if exists|k: nat| is_first_free(seed, body, k) {
        Some(choose|k: nat| is_first_free(seed, body, k))
    } else {
        None
    }
}

proof fn lemma_first_free_unique(seed: u32, body: Seq<(i32, i32)>, k: nat)
    requires
        is_first_free(seed, body, k),
    ensures
        first_free(seed, body) == Some(k),
{
    let m = choose|m: nat| is_first_free(seed, body, m);
    assert(is_first_free(seed, body, m));
    if m < k {
        assert(body.contains(candidate(seed, m)));
    }
    if k < m {
        assert(body.contains(candidate(seed, k)));
    }
}

/// `snake` holds `c`.
fn contains(snake: &VecDeque<(i32, i32)>, c: (i32, i32)) -> (r: bool)
    ensures
        r == snake@.contains(c),
{
    let mut i: usize = 0;
    while i < snake.len()
        invariant
            i <= snake@.len(),
            forall|j: int| 0 <= j < i ==> snake@[j] != c,
        decreases snake@.len() - i,
    {
        let p = snake[i];
        if p.0 == c.0 && p.1 == c.1 {
            assert(snake@[i as int] == c);
            return true;
        }
        i = i + 1;
    }
    false
}

/// Draws places until one is not on the snake: the first free place among
/// the attempts, or `None` when every attempt lands on the snake.
fn spawn_food(rng: &mut Rng, snake: &VecDeque<(i32, i32)>) -> (r: Option<(i32, i32)>)
    ensures
        match first_free(old(rng).0, snake@) {
            Some(k) => r == Some(candidate(old(rng).0, k)) && final(rng).0 == rng_after(
                old(rng).0,
                2 * k + 2,
            ),
            None => r is None,
        },
{
    let ghost seed = rng.0;
    let mut k: u64 = 0;
    while k < SPAWN_ATTEMPTS
        invariant
            k <= SPAWN_ATTEMPTS,
            seed == old(rng).0,
            rng.0 == rng_after(seed, 2 * k as nat),
            forall|j: nat| j < k ==> snake@.contains(#[trigger] candidate(seed, j)),
        decreases SPAWN_ATTEMPTS - k,
    {
        let x = (rng.next() % 40) as i32;
        assert(rng.0 == rng_after(seed, 2 * k as nat + 1));
        let y = (rng.next() % 18) as i32;
        assert(rng.0 == rng_after(seed, 2 * k as nat + 2));
        assert((x, y) == candidate(seed, k as nat));
        if !contains(snake, (x, y)) {
            proof {
                lemma_first_free_unique(seed, snake@, k as nat);
            }
            return Some((x, y));
        }
        k = k + 1;
    }
    proof {
        if exists|m: nat| is_first_free(seed, snake@, m) {
            let m = choose|m: nat| is_first_free(seed, snake@, m);
            assert(snake@.contains(candidate(seed, m)));
        }
    }
    None
}

/// How one step of the game ended.
#[derive(Clone, Copy, Debug, PartialEq, Eq, Structural)]
pub enum StepOutcome {
    /// The game goes on.
    Continue,
    /// A key other than W/A/S/D was pressed.
    Quit,
    /// The snake hit a wall or itself.
    GameOver,
    /// No free place for new food was found.
    NoRoom,
}

/// The abstract state of a game.
pub struct SnakeView {
    pub body: Seq<(i32, i32)>,
    pub dir: Dir,
    pub rng: u32,
    pub food: (i32, i32),
    pub score: u32,
}

/// `c` lies on the board.
pub open spec fn on_board(c: (i32, i32)) -> bool {
    0 <= c.0 < WIDTH && 0 <= c.1 < HEIGHT
}

impl SnakeView {
    /// The snake is on the board, never overlaps itself and has grown by one
    /// segment per point scored.
    pub open spec fn wf(self) -> bool {
        &&& self.body.len() >= 1
        &&& self.body.no_duplicates()
        &&& forall|i: int| 0 <= i < self.body.len() ==> on_board(#[trigger] self.body[i])
        &&& self.body.len() == self.score + 1
    }
}

/// The direction a key selects, for W, A, S and D in either case.
pub open spec fn key_dir(ascii: u8) -> Option<Dir> {
    if ascii == 119 || ascii == 87 {
        Some(Dir::Up)
    } else if ascii == 115 || ascii == 83 {
        Some(Dir::Down)
    } else if ascii == 97 || ascii == 65 {
        Some(Dir::Left)
    } else if ascii == 100 || ascii == 68 {
        Some(Dir::Right)
    } else {
        None
    }
}

/// The cell next to `c` in direction `d`.
pub open spec fn moved(c: (i32, i32), d: Dir) -> (int, int) {
    match d {
        Dir::Up => (c.0 as int, c.1 - 1),
        Dir::Down => (c.0 as int, c.1 + 1),
        Dir::Left => (c.0 - 1, c.1 as int),
        Dir::Right => (c.0 + 1, c.1 as int),
    }
}

/// One step of the game for the scancode read this tick, if any: steer or
/// quit, move the head, die on a wall or on the body, eat the food (grow,
/// score and place new food) or else drop the tail.
pub open spec fn step_spec(g: SnakeView, scancode: Option<u8>) -> (SnakeView, StepOutcome) {
    let key = match scancode {
        Some(code) => ascii_of(code),
        None => None,
    };
    if key is Some && key_dir(key->0) is None {
        (g, StepOutcome::Quit)
    } else {
        let dir = if key is Some {
            key_dir(key->0)->0
        } else {
            g.dir
        };
        let n = moved(g.body[0], dir);
        let head = (n.0 as i32, n.1 as i32);
        let turned = SnakeView { body: g.body, dir, rng: g.rng, food: g.food, score: g.score };
        if !(0 <= n.0 < WIDTH && 0 <= n.1 < HEIGHT) || g.body.contains(head) {
            (turned, StepOutcome::GameOver)
        } else if head == g.food {
            let body = seq![head] + g.body;
            match first_free(g.rng, body) {
                Some(k) => (
                    SnakeView {
                        body,
                        dir,
                        rng: rng_after(g.rng, 2 * k + 2),
                        food: candidate(g.rng, k),
                        score: (g.score + 1) as u32,
                    },
                    StepOutcome::Continue,
                ),
                None => (turned, StepOutcome::NoRoom),
            }
        } else {
            (
                SnakeView {
                    body: (seq![head] + g.body).drop_last(),
                    dir,
                    rng: g.rng,
                    food: g.food,
                    score: g.score,
                },
                StepOutcome::Continue,
            )
        }
    }
}

/// The character drawn for cell (`x`, `y`): `@` for the head, `o` for the
/// rest of the snake, `*` for food, else a space.
pub open spec fn cell_char(g: SnakeView, x: i32, y: i32) -> char {
    if (x, y) == g.body[0] {
        '@'
    } else if g.body.contains((x, y)) {
        'o'
    } else if (x, y) == g.food {
        '*'
    } else {
        ' '
    }
}

/// The picture of the game: the score line, then one line per row.
pub open spec fn render_spec(g: SnakeView) -> Seq<Seq<char>> {
    seq!["Score: "@ + decimal(g.score as nat)] + Seq::new(
        HEIGHT as nat,
        |y: int| Seq::new(WIDTH as nat, |x: int| cell_char(g, x as i32, y as i32)),
    )
}

/// A game of snake.
pub struct SnakeGame {
    snake: VecDeque<(i32, i32)>,
    dir: Dir,
    rng: Rng,
    food: (i32, i32),
    score: u32,
}

impl View for SnakeGame {
    type V = SnakeView;

    closed spec fn view(&self) -> SnakeView {
        SnakeView {
            body: self.snake@,
            dir: self.dir,
            rng: self.rng.0,
            food: self.food,
            score: self.score,
        }
    }
}

/// A snake of cells on the board without repeats is no longer than the
/// board has cells.
pub proof fn lemma_snake_fits(body: Seq<(i32, i32)>)
    requires
        body.no_duplicates(),
        forall|i: int| 0 <= i < body.len() ==> on_board(#[trigger] body[i]),
    ensures
        body.len() <= CELLS,
{
    let idx = Seq::new(body.len(), |i: int| body[i].1 * 40 + body[i].0);
    assert(idx.no_duplicates()) by {
        assert forall|i: int, j: int| 0 <= i < idx.len() && 0 <= j < idx.len() && i != j implies idx[i]
            != idx[j] by {
            let a = body[i];
            let b = body[j];
            assert(on_board(a) && on_board(b));
            assert(a != b);
            if idx[i] == idx[j] {
                assert(a.1 == b.1 && a.0 == b.0) by (nonlinear_arith)
                    requires
                        a.1 * 40 + a.0 == b.1 * 40 + b.0,
                        0 <= a.0 < 40,
                        0 <= b.0 < 40,
                ;
            }
        }
    }
    idx.unique_seq_to_set();
    assert(idx.to_set().subset_of(set_int_range(0, CELLS as int))) by {
        assert forall|v: int| idx.to_set().contains(v) implies set_int_range(0, CELLS as int).contains(v) by {
            let i = choose|i: int| 0 <= i < idx.len() && idx[i] == v;
            assert(on_board(body[i]));
        }
    }
    vstd::set_lib::lemma_int_range(0, CELLS as int);
    vstd::set_lib::lemma_len_subset(idx.to_set(), set_int_range(0, CELLS as int));
}

impl SnakeGame {
    /// A one-segment snake in the middle of the board heading right, with
    /// the first food placed.
    pub fn new() -> (r: SnakeGame)
        ensures
            r@.body == seq![(20i32, 9i32)],
            r@.dir == Dir::Right,
            r@.rng == rng_after(SEED, 2),
            r@.food == candidate(SEED, 0),
            r@.score == 0,
            r@.wf(),
    {
        let mut snake: VecDeque<(i32, i32)> = VecDeque::new();
        snake.push_back((WIDTH / 2, HEIGHT / 2));
        let mut rng = Rng(SEED);
        assert(xorshift(0x9F3B_17A5u32) == 0x4436_e102u32) by (bit_vector);
        assert(xorshift(0x4436_e102u32) == 0x9acb_4c29u32) by (bit_vector);
        assert(rng_after(SEED, 0) == SEED);
        assert(rng_after(SEED, 1) == 0x4436_e102u32);
        assert(rng_after(SEED, 2) == 0x9acb_4c29u32);
        assert(candidate(SEED, 0) == (34i32, 3i32));
        assert(!snake@.contains(candidate(SEED, 0))) by {
            assert(snake@ =~= seq![(20i32, 9i32)]);
        }
        assert(is_first_free(SEED, snake@, 0));
        proof {
            lemma_first_free_unique(SEED, snake@, 0);
        }
        let food = match spawn_food(&mut rng, &snake) {
            Some(f) => f,
            None => (0, 0),
        };
        assert(snake@ =~= seq![(20i32, 9i32)]);
        SnakeGame { snake, dir: Dir::Right, rng, food, score: 0 }
    }

    /// The points scored so far.
    pub fn score(&self) -> (r: u32)
        ensures
            r == self@.score,
    {
        self.score
    }

    /// Plays one tick with the scancode read during it, if any.
    pub fn step(&mut self, scancode: Option<u8>) -> (r: StepOutcome)
        requires
            old(self)@.wf(),
        ensures
            (final(self)@, r) == step_spec(old(self)@, scancode),
            final(self)@.wf(),
    {
        let ghost g = self@;
        proof {
            law_step_keeps_wf(g, scancode);
        }
        if let Some(code) = scancode {
            if let Some(ascii) = scancode_to_ascii(code) {
                if ascii == 119 || ascii == 87 {
                    self.dir = Dir::Up;
                } else if ascii == 115 || ascii == 83 {
                    self.dir = Dir::Down;
                } else if ascii == 97 || ascii == 65 {
                    self.dir = Dir::Left;
                } else if ascii == 100 || ascii == 68 {
                    self.dir = Dir::Right;
                } else {
                    return StepOutcome::Quit;
                }
            }
        }
        let head = self.snake[0];
        assert(on_board(g.body[0]));
        let (hx, hy) = head;
        let (nx, ny) = match self.dir {
            Dir::Up => (hx, hy - 1),
            Dir::Down => (hx, hy + 1),
            Dir::Left => (hx - 1, hy),
            Dir::Right => (hx + 1, hy),
        };
        if nx < 0 || nx >= WIDTH || ny < 0 || ny >= HEIGHT || contains(&self.snake, (nx, ny)) {
            return StepOutcome::GameOver;
        }
        proof {
            lemma_snake_fits(g.body);
        }
        self.snake.push_front((nx, ny));
        assert(self.snake@ =~= seq![(nx, ny)] + g.body);
        if nx == self.food.0 && ny == self.food.1 {
            let saved_rng = self.rng.0;
            self.score = self.score + 1;
            match spawn_food(&mut self.rng, &self.snake) {
                Some(f) => {
                    self.food = f;
                    StepOutcome::Continue
                },
                None => {
                    let _ = self.snake.pop_front();
                    self.score = self.score - 1;
                    assert(self.snake@ =~= g.body);
                    self.rng = Rng(saved_rng);
                    StepOutcome::NoRoom
                },
            }
        } else {
            let ghost grown = self.snake@;
            let _ = self.snake.pop_back();
            assert(self.snake@ =~= grown.drop_last());
            StepOutcome::Continue
        }
    }

    /// The lines that picture the game.
    pub fn render(&self) -> (r: Vec<String>)
        requires
            self@.wf(),
        ensures
            r@.len() == 1 + HEIGHT,
            forall|i: int| 0 <= i < r@.len() ==> #[trigger] r@[i]@ == render_spec(self@)[i],
    {
        let ghost g = self@;
        let mut out: Vec<String> = Vec::new();
        let mut title = "Score: ".to_owned();
        let digits = decimal_string(self.score as u64);
        title.append(digits.as_str());
        out.push(title);
        let head = self.snake[0];
        let mut y: i32 = 0;
        while y < HEIGHT
            invariant
                g == self@,
                g.wf(),
                head == g.body[0],
                0 <= y <= HEIGHT,
                out@.len() == 1 + y,
                forall|i: int| 0 <= i < out@.len() ==> #[trigger] out@[i]@ == render_spec(g)[i],
            decreases HEIGHT - y,
        {
            let mut line = String::new();
            let mut x: i32 = 0;
            while x < WIDTH
                invariant
                    g == self@,
                    head == g.body[0],
                    0 <= x <= WIDTH,
                    0 <= y < HEIGHT,
                    line@ == Seq::new(x as nat, |i: int| cell_char(g, i as i32, y)),
                decreases WIDTH - x,
            {
                let c = if x == head.0 && y == head.1 {
                    '@'
                } else if contains(&self.snake, (x, y)) {
                    'o'
                } else if x == self.food.0 && y == self.food.1 {
                    '*'
                } else {
                    ' '
                };
                push_char(&mut line, c);
                assert(line@ =~= Seq::new((x + 1) as nat, |i: int| cell_char(g, i as i32, y)));
                x = x + 1;
            }
            let ghost before = out@;
            out.push(line);
            proof {
                assert forall|i: int| 0 <= i < out@.len() implies #[trigger] out@[i]@ == render_spec(
                    g,
                )[i] by {
                    if i < before.len() {
                        assert(out@[i] == before[i]);
                    } else {
                        assert(render_spec(g)[i] =~= Seq::new(
                            WIDTH as nat,
                            |x: int| cell_char(g, x as i32, y),
                        ));
                    }
                }
            }
            y = y + 1;
        }
        out
    }
}

/// Every step keeps the game well formed: the snake stays on the board,
/// never overlaps itself, and is one segment longer than the score.
pub proof fn law_step_keeps_wf(g: SnakeView, scancode: Option<u8>)
    requires
        g.wf(),
    ensures
        step_spec(g, scancode).0.wf(),
{
    let key = match scancode {
        Some(code) => ascii_of(code),
        None => None,
    };
    if !(key is Some && key_dir(key->0) is None) {
        let dir = if key is Some {
            key_dir(key->0)->0
        } else {
            g.dir
        };
        let n = moved(g.body[0], dir);
        let head = (n.0 as i32, n.1 as i32);
        assert(on_board(g.body[0]));
        if (0 <= n.0 < WIDTH && 0 <= n.1 < HEIGHT) && !g.body.contains(head) {
            let body = seq![head] + g.body;
            lemma_snake_fits(g.body);
            assert forall|i: int, j: int|
                0 <= i < body.len() && 0 <= j < body.len() && i != j implies body[i] != body[j] by {
                if i == 0 {
                    assert(body[j] == g.body[j - 1]);
                } else if j == 0 {
                    assert(body[i] == g.body[i - 1]);
                } else {
                    assert(body[i] == g.body[i - 1]);
                    assert(body[j] == g.body[j - 1]);
                }
            }
            assert forall|i: int| 0 <= i < body.len() implies on_board(#[trigger] body[i]) by {
                if i > 0 {
                    assert(body[i] == g.body[i - 1]);
                }
            }
            if head != g.food {
                let shorter = body.drop_last();
                assert forall|i: int, j: int|
                    0 <= i < shorter.len() && 0 <= j < shorter.len() && i != j implies shorter[i]
                    != shorter[j] by {
                    assert(shorter[i] == body[i]);
                    assert(shorter[j] == body[j]);
                }
                assert forall|i: int| 0 <= i < shorter.len() implies on_board(
                    #[trigger] shorter[i],
                ) by {
                    assert(shorter[i] == body[i]);
                }
            }
        }
    }
}


/// The scancodes of W, S, A and D move the head one cell up, down, left and
/// right: with `(dx, dy)` the key's displacement, the head goes from
/// `(hx, hy)` to `(hx + dx, hy + dy)`. A step there ends the game exactly
/// when that cell is off the board or on the snake; otherwise the snake goes
/// on (or finds no room for new food after eating), its new head is that
/// cell, and it grows by that cell when it eats (scoring a point, with new
/// food placed on the board off the snake) and keeps its length when it
/// does not.
pub proof fn law_keys_move_head(g: SnakeView, code: u8, dx: int, dy: int)
    requires
        g.wf(),
        (code == 0x11 && dx == 0 && dy == -1) || (code == 0x1F && dx == 0 && dy == 1) || (code
            == 0x1E && dx == -1 && dy == 0) || (code == 0x20 && dx == 1 && dy == 0),
    ensures
        ({
            let (hx, hy) = g.body[0];
            let tx = hx + dx;
            let ty = hy + dy;
            let target = (tx as i32, ty as i32);
            let (after, outcome) = step_spec(g, Some(code));
            &&& outcome == StepOutcome::GameOver <==> !(0 <= tx < WIDTH && 0 <= ty < HEIGHT)
                || g.body.contains(target)
            &&& outcome != StepOutcome::Quit
            &&& outcome == StepOutcome::NoRoom ==> target == g.food
            &&& outcome == StepOutcome::Continue ==> after.body[0] == target
            &&& outcome == StepOutcome::Continue && target == g.food ==> after.body == seq![target]
                + g.body && after.score == g.score + 1 && on_board(after.food)
                && !after.body.contains(after.food)
            &&& outcome == StepOutcome::Continue && target != g.food ==> after.body == seq![target]
                + g.body.drop_last() && after.score == g.score
        }),
{
    assert(ascii_of(0x11) == Some(119u8));
    assert(ascii_of(0x1F) == Some(115u8));
    assert(ascii_of(0x1E) == Some(97u8));
    assert(ascii_of(0x20) == Some(100u8));
    assert(on_board(g.body[0]));
    lemma_snake_fits(g.body);
    let (after, outcome) = step_spec(g, Some(code));
    if outcome == StepOutcome::Continue && after.body.len() == g.body.len() + 1 {
        let body = after.body;
        let k = first_free(g.rng, body)->0;
        assert(is_first_free(g.rng, body, k));
        assert(after.food == candidate(g.rng, k));
    }
}

/// Up and down never lead to the same cell: from one state, the heads after
/// pressing W and after pressing S differ by two rows in the same column.
pub proof fn law_up_down_differ(g: SnakeView)
    requires
        g.wf(),
        step_spec(g, Some(0x11)).1 == StepOutcome::Continue,
        step_spec(g, Some(0x1F)).1 == StepOutcome::Continue,
    ensures
        step_spec(g, Some(0x11)).0.body[0] != step_spec(g, Some(0x1F)).0.body[0],
        step_spec(g, Some(0x11)).0.body[0].0 == step_spec(g, Some(0x1F)).0.body[0].0,
        step_spec(g, Some(0x11)).0.body[0].1 + 2 == step_spec(g, Some(0x1F)).0.body[0].1,
{
    law_keys_move_head(g, 0x11, 0, -1);
    law_keys_move_head(g, 0x1F, 0, 1);
}

/// With no key the snake keeps going the way it heads, just as if the key
/// of its current direction were pressed; a scancode without a character
/// (such as a key release) counts as no key.
pub proof fn law_no_key_keeps_direction(g: SnakeView, code: u8, other: u8)
    requires
        (g.dir == Dir::Up && code == 0x11) || (g.dir == Dir::Down && code == 0x1F) || (g.dir
            == Dir::Left && code == 0x1E) || (g.dir == Dir::Right && code == 0x20),
        ascii_of(other) is None,
    ensures
        step_spec(g, None) == step_spec(g, Some(code)),
        step_spec(g, Some(other)) == step_spec(g, None),
{
    assert(ascii_of(0x11) == Some(119u8));
    assert(ascii_of(0x1F) == Some(115u8));
    assert(ascii_of(0x1E) == Some(97u8));
    assert(ascii_of(0x20) == Some(100u8));
}

/// A key with a character other than W, A, S or D quits and leaves the game
/// as it was.
pub proof fn law_other_key_quits(g: SnakeView, code: u8)
    requires
        ascii_of(code) is Some,
        code != 0x11 && code != 0x1F && code != 0x1E && code != 0x20,
    ensures
        step_spec(g, Some(code)) == (g, StepOutcome::Quit),
{
}

} // verus!
