//! The game of the snake, played on the letter block.
//!
//! The snake moves one cell with every tick of the timer and turns as the
//! arrow keys ask, one turn a tick. It grows when its head reaches the food
//! and dies when its head runs into its body. The field has no walls: a
//! snake that leaves it on one side comes back on the other.

use std::collections::VecDeque;
use vstd::prelude::*;
use crate::color::{Color, Command, CommandView, KeyColor, commands_view};
use crate::grid::{Cell, Direction, CELLS, HEIGHT, WIDTH, in_grid, key_at, spec_key_at, spec_step, step};
use crate::keys::{Key, KeyEvent, StandardKey};
use crate::random::RandomSource;

verus! {

/// Whether the game is on.
#[derive(Clone, Copy, Debug, PartialEq, Eq, Structural, Hash)]
pub enum State {
    Running,
    Stop,
}

/// The game.
pub struct Snake {
    snake: VecDeque<Cell>,
    apple: Cell,
    state: State,
    actions: VecDeque<Direction>,
    last_direction: Direction,
}

/// The state of a game.
pub struct SnakeView {
    /// The cells of the snake, from the head to the tip of the tail.
    pub body: Seq<Cell>,
    /// The cell of the food.
    pub food: Cell,
    pub run_state: State,
    /// The turns that were asked for and not yet taken, oldest first.
    pub pending_directions: Seq<Direction>,
    /// The direction of the last step.
    pub last_direction: Direction,
}

/// How often a cell for the food is drawn before the first free cell is
/// taken instead. With a source that is anywhere near fair the bound is
/// never reached; it is there so that placing the food always ends, also
/// with a source that keeps handing out cells of the snake.
pub const MAX_DRAWS: u32 = 1_000_000;

/// The snake at the start of a game, from head to tail.
pub open spec fn start_body() -> Seq<Cell> {
    seq![(3u8, 2u8), (2u8, 2u8), (1u8, 2u8)]
}

/// The blue of the `i`-th cell behind the head (counted from 0) of a snake
/// of `len` cells: 100 for the base and up to 155 more, the more the nearer
/// to the head, rounded down.
pub open spec fn spec_tail_blue(len: int, i: int) -> u8 {
    (100 + (155 * (len - i)) / len) as u8
}

/// The colour of the snake's head.
pub open spec fn head_color() -> Color {
    Color { red: 0xe9, green: 0x1e, blue: 0x63 }
}

/// The colour of the food.
pub open spec fn food_color() -> Color {
    Color { red: 0, green: 255, blue: 0 }
}

/// The direction that an event asks for: that of the arrow key, if the
/// event is the press of one.
pub open spec fn spec_turn(evt: KeyEvent) -> Option<Direction> {
    match evt {
        KeyEvent::KeyPressed(Key::Standard(StandardKey::Up)) => Some(Direction::Up),
        KeyEvent::KeyPressed(Key::Standard(StandardKey::Down)) => Some(Direction::Down),
        KeyEvent::KeyPressed(Key::Standard(StandardKey::Left)) => Some(Direction::Left),
        KeyEvent::KeyPressed(Key::Standard(StandardKey::Right)) => Some(Direction::Right),
        _ => None,
    }
}

impl SnakeView {
    /// Whether every cell of the snake lies on the field and none is
    /// taken twice.
    pub open spec fn body_fits(self) -> bool {
        &&& forall|i: int| 0 <= i < self.body.len() ==> in_grid(#[trigger] self.body[i])
        &&& self.body.no_duplicates()
    }

    /// Whether a game was started.
    pub open spec fn seeded(self) -> bool {
        self.body.len() > 0
    }

    /// What holds of every game: at most two turns are waiting, the snake
    /// fits the field, and, once a game was started, the snake has at
    /// least three cells and the food lies on a cell of the field that the
    /// snake does not cover.
    pub open spec fn well_formed(self) -> bool {
        &&& self.pending_directions.len() <= 2
        &&& self.body_fits()
        &&& self.seeded() ==> {
            &&& self.body.len() >= 3
            &&& in_grid(self.food)
            &&& !self.body.contains(self.food)
        }
    }

    /// The direction of the next step: the oldest turn that is waiting,
    /// or else the direction of the last step.
    pub open spec fn next_direction(self) -> Direction {
        if self.pending_directions.len() > 0 {
            self.pending_directions[0]
        } else {
            self.last_direction
        }
    }

    /// The turns that are still waiting after the next step.
    pub open spec fn next_pending(self) -> Seq<Direction> {
        if self.pending_directions.len() > 0 {
            self.pending_directions.drop_first()
        } else {
            self.pending_directions
        }
    }

    /// The cell that the head reaches with the next step.
    pub open spec fn next_head(self) -> Cell {
        spec_step(self.body[0], self.next_direction())
    }

    /// Whether the next step reaches the food.
    pub open spec fn eats(self) -> bool {
        self.next_head() == self.food
    }

    /// The cells that the snake still covers when the head arrives: all of
    /// them if it eats, and all but the tip of the tail if it does not.
    pub open spec fn trailing(self) -> Seq<Cell> {
        if self.eats() {
            self.body
        } else {
            self.body.drop_last()
        }
    }

    /// Whether the next step runs the head into the snake.
    pub open spec fn collides(self) -> bool {
        self.trailing().contains(self.next_head())
    }

    /// Whether the game is at its start: the snake of three cells in the
    /// third row, heading right, with no turn waiting, and the food on a
    /// cell of the field that the snake does not cover.
    pub open spec fn at_start(self) -> bool {
        &&& self.body == start_body()
        &&& self.run_state == State::Running
        &&& self.pending_directions.len() == 0
        &&& self.last_direction == Direction::Right
        &&& in_grid(self.food)
        &&& !self.body.contains(self.food)
    }

    /// Whether the game takes the event: while it runs, the press of an
    /// arrow key; once it is over, the press of the return key of the
    /// number pad.
    pub open spec fn accepts(self, evt: KeyEvent) -> bool {
        match self.run_state {
            State::Running => spec_turn(evt) is Some,
            State::Stop => evt == KeyEvent::KeyPressed(Key::Standard(StandardKey::NumReturn)),
        }
    }

    /// The turns that are waiting once `d` was asked for: `d` comes last,
    /// and where two were waiting already the oldest is given up.
    pub open spec fn queued(self, d: Direction) -> Seq<Direction> {
        if self.pending_directions.len() >= 2 {
            self.pending_directions.drop_first().push(d)
        } else {
            self.pending_directions.push(d)
        }
    }

    /// The game after a step that ran the head into the snake: it is over,
    /// the snake and the food are where they were.
    pub open spec fn crashed(self) -> SnakeView {
        SnakeView {
            body: self.body,
            food: self.food,
            run_state: State::Stop,
            pending_directions: self.next_pending(),
            last_direction: self.next_direction(),
        }
    }

    /// The game after a step that went well, with the food on `food`.
    pub open spec fn moved(self, food: Cell) -> SnakeView {
        SnakeView {
            body: seq![self.next_head()] + self.trailing(),
            food,
            run_state: State::Running,
            pending_directions: self.next_pending(),
            last_direction: self.next_direction(),
        }
    }

    /// What is shown when the game ends: the whole board in red, on it the
    /// snake and the food, then the return key of the number pad in blue
    /// and the cell of the crash in orange.
    pub open spec fn crash_frame(self) -> Seq<CommandView> {
        seq![
            CommandView::SetAll(Color { red: 255, green: 0, blue: 0 }),
            CommandView::SetKeys(self.crashed().key_colors()),
            CommandView::SetKeys(
                seq![
                    KeyColor {
                        key: Key::Standard(StandardKey::NumReturn),
                        color: Color { red: 0, green: 0, blue: 255 },
                    },
                    KeyColor {
                        key: Key::Standard(spec_key_at(self.next_head())),
                        color: Color { red: 255, green: 165, blue: 0 },
                    },
                ],
            ),
        ]
    }

    /// The cell that a step without food leaves behind, in black; nothing
    /// if the snake ate, or if the head went where the tip of the tail was.
    pub open spec fn vacated(self) -> Seq<KeyColor> {
        if !self.eats() && !(seq![self.next_head()] + self.trailing()).contains(self.body.last()) {
            seq![
                KeyColor {
                    key: Key::Standard(spec_key_at(self.body.last())),
                    color: Color { red: 0, green: 0, blue: 0 },
                },
            ]
        } else {
            seq![]
        }
    }

    /// What is shown after a step that went well, with the food on `food`:
    /// the snake and the food, then the cell that was left behind.
    pub open spec fn move_frame(self, food: Cell) -> Seq<CommandView> {
        seq![CommandView::SetKeys(self.moved(food).key_colors() + self.vacated())]
    }

    /// What is shown at the start of a game: the whole board in black, on
    /// it the snake and the food.
    pub open spec fn start_frame(self) -> Seq<CommandView> {
        seq![
            CommandView::SetAll(Color { red: 0, green: 0, blue: 0 }),
            CommandView::SetKeys(self.key_colors()),
        ]
    }

    /// Whether the game can take a tick of the timer: it was started, and
    /// if the next step reaches the food, a free cell is left for new food
    /// once the snake has grown.
    pub open spec fn can_tick(self) -> bool {
        &&& self.seeded()
        &&& self.run_state == State::Running && self.eats() ==> self.body.len() + 2 <= CELLS
    }

    /// The colours of the snake and the food: the cells behind the head,
    /// from the neck to the tail, in fading blue, then the head, then the
    /// food.
    pub open spec fn key_colors(self) -> Seq<KeyColor> {
        Seq::new(
            (self.body.len() - 1) as nat,
            |i: int|
                KeyColor {
                    key: Key::Standard(spec_key_at(self.body[i + 1])),
                    color: Color {
                        red: 0,
                        green: 0,
                        blue: spec_tail_blue(self.body.len() as int, i),
                    },
                },
        ).push(KeyColor { key: Key::Standard(spec_key_at(self.body[0])), color: head_color() })
            .push(KeyColor { key: Key::Standard(spec_key_at(self.food)), color: food_color() })
    }
}

/// The cell with the given number, counting along the rows from the top
/// left.
pub open spec fn spec_cell_of(index: int) -> Cell {
    ((index % (WIDTH as int)) as u8, (index / (WIDTH as int)) as u8)
}

/// The cell that a draw of two bytes stands for: the first byte gives the
/// column and the second the row, each taken modulo the size of the field.
pub open spec fn spec_cell_from_draw(a: u8, b: u8) -> Cell {
    ((a % WIDTH) as u8, (b % HEIGHT) as u8)
}

/// A sequence with `x` put in front has `y` exactly if `y` is `x` or the
/// sequence has `y`.
proof fn lemma_contains_in_front<A>(s: Seq<A>, x: A, y: A)
    ensures
        (seq![x] + s).contains(y) <==> (y == x || s.contains(y)),
{
    let t = seq![x] + s;
    if t.contains(y) {
        let i = choose|i: int| 0 <= i < t.len() && t[i] == y;
        if i > 0 {
            assert(s[i - 1] == y);
        }
    }
    if y == x {
        assert(t[0] == y);
    }
    if s.contains(y) {
        let i = choose|i: int| 0 <= i < s.len() && s[i] == y;
        assert(t[i + 1] == y);
    }
}

/// Putting a new element in front of a sequence without repetitions
/// gives a sequence without repetitions.
proof fn lemma_distinct_in_front<A>(s: Seq<A>, x: A)
    requires
        s.no_duplicates(),
        !s.contains(x),
    ensures
        (seq![x] + s).no_duplicates(),
{
    let t = seq![x] + s;
    assert forall|i: int, j: int| 0 <= i < t.len() && 0 <= j < t.len() && i != j implies t[i]
        != t[j] by {
        if i == 0 {
            assert(s[j - 1] == t[j]);
        } else if j == 0 {
            assert(s[i - 1] == t[i]);
        } else {
            assert(s[i - 1] == t[i] && s[j - 1] == t[j]);
        }
    }
}

/// What a sequence without its last element has, the sequence has.
proof fn lemma_drop_last_contains<A>(s: Seq<A>, y: A)
    requires
        s.len() > 0,
        s.drop_last().contains(y),
    ensures
        s.contains(y),
{
    let i = choose|i: int| 0 <= i < s.drop_last().len() && s.drop_last()[i] == y;
    assert(s[i] == y);
}

/// A snake that covers every cell of the field has at least as many cells
/// as the field.
proof fn lemma_full_field(body: Seq<Cell>)
    requires
        forall|k: int| 0 <= k < CELLS ==> body.contains(#[trigger] spec_cell_of(k)),
    ensures
        body.len() >= CELLS,
{
    let numbers = vstd::set_lib::set_int_range(0, CELLS as int);
    let cell_of = |k: int| spec_cell_of(k);
    let cells = numbers.map(cell_of);
    vstd::set_lib::lemma_int_range(0, CELLS as int);
    assert(vstd::relations::injective_on(cell_of, numbers)) by {
        assert forall|k1: int, k2: int|
            numbers.contains(k1) && numbers.contains(k2) && #[trigger] cell_of(k1)
                == #[trigger] cell_of(k2) implies k1 == k2 by {
            assert(k1 % 13 == k2 % 13);
            assert(k1 / 13 == k2 / 13);
        }
    }
    vstd::set_lib::lemma_map_size(numbers, cells, cell_of);
    assert(cells.subset_of(body.to_set())) by {
        assert forall|c: Cell| cells.contains(c) implies body.to_set().contains(c) by {
            let k = choose|k: int| numbers.contains(k) && cell_of(k) == c;
            assert(body.contains(spec_cell_of(k)));
        }
    }
    vstd::seq_lib::seq_to_set_is_finite(body);
    vstd::set_lib::lemma_len_subset(cells, body.to_set());
    body.lemma_cardinality_of_set();
}

/// Once a game was started, the food lies on a cell of the field that
/// the snake does not cover.
pub proof fn lemma_food_is_free(game: SnakeView)
    requires
        game.well_formed(),
        game.seeded(),
    ensures
        in_grid(game.food),
        forall|i: int| 0 <= i < game.body.len() ==> #[trigger] game.body[i] != game.food,
{
}

/// The head may go where the tip of the tail is: the tail has left the
/// cell when the head arrives, so the step is no crash.
pub proof fn lemma_tail_gives_way(game: SnakeView)
    requires
        game.well_formed(),
        game.seeded(),
        game.next_head() == game.body.last(),
    ensures
        !game.eats(),
        !game.collides(),
        game.vacated().len() == 0,
{
    assert(game.body[game.body.len() - 1] != game.food);
    let rest = game.body.drop_last();
    if rest.contains(game.body.last()) {
        let i = choose|i: int| 0 <= i < rest.len() && rest[i] == game.body.last();
        assert(game.body[i] == game.body[game.body.len() - 1]);
    }
    lemma_contains_in_front(game.trailing(), game.next_head(), game.body.last());
}

/// A step onto any other cell of the snake is a crash. So is a turn right
/// round: it leads the head onto the neck.
pub proof fn lemma_body_is_in_the_way(game: SnakeView, i: int)
    requires
        game.well_formed(),
        game.seeded(),
        0 <= i < game.body.len() - 1,
        game.next_head() == game.body[i],
    ensures
        game.collides(),
{
    assert(game.trailing()[i] == game.body[i]);
}

/// A step without food leaves the cell of the tip of the tail behind,
/// unless the head went there.
pub proof fn lemma_vacated(game: SnakeView)
    requires
        game.well_formed(),
        game.seeded(),
        !game.collides(),
    ensures
        game.vacated().len() == if !game.eats() && game.next_head() != game.body.last() {
            1nat
        } else {
            0nat
        },
{
    if !game.eats() {
        lemma_contains_in_front(game.trailing(), game.next_head(), game.body.last());
        let rest = game.body.drop_last();
        if rest.contains(game.body.last()) {
            let i = choose|i: int| 0 <= i < rest.len() && rest[i] == game.body.last();
            assert(game.body[i] == game.body[game.body.len() - 1]);
        }
    }
}

/// A game at its start is sound and can take a tick.
pub proof fn lemma_start_is_sound(game: SnakeView)
    requires
        game.at_start(),
    ensures
        game.well_formed(),
        game.seeded(),
        game.can_tick(),
{
    assert(start_body().no_duplicates());
}

/// A step keeps the game sound: after a crash the game is as sound as
/// before, and after a step that went well it is sound wherever the food
/// is, as long as the food stays where it was if it was not eaten and lies
/// on a free cell of the field if it is new.
pub proof fn lemma_step_keeps_sound(game: SnakeView, food: Cell)
    requires
        game.well_formed(),
        game.seeded(),
        game.run_state == State::Running,
        game.eats() ==> in_grid(food) && !game.moved(food).body.contains(food),
        !game.eats() ==> food == game.food,
    ensures
        game.collides() ==> game.crashed().well_formed(),
        !game.collides() ==> game.moved(food).well_formed() && game.moved(food).seeded(),
        !game.collides() ==> !game.moved(food).body.contains(food),
{
    crate::grid::lemma_step_stays_on_field(game.body[0], game.next_direction());
    if !game.collides() {
        let after = game.moved(food);
        lemma_distinct_in_front(game.trailing(), game.next_head());
        lemma_contains_in_front(game.trailing(), game.next_head(), game.food);
        if !game.eats() && game.trailing().contains(game.food) {
            lemma_drop_last_contains(game.body, game.food);
        }
        assert forall|i: int| 0 <= i < after.body.len() implies in_grid(#[trigger] after.body[i]) by {
            if i > 0 {
                assert(after.body[i] == game.body[i - 1]);
            }
        }
    }
}

/// A game that is over takes the press of the return key of the number
/// pad and nothing else; a game that runs takes the press of an arrow key
/// and nothing else.
pub proof fn lemma_accepts(game: SnakeView, evt: KeyEvent)
    ensures
        game.run_state == State::Stop ==> (game.accepts(evt) <==> evt == KeyEvent::KeyPressed(
            Key::Standard(StandardKey::NumReturn),
        )),
        game.run_state == State::Running ==> (game.accepts(evt) <==> {
            ||| evt == KeyEvent::KeyPressed(Key::Standard(StandardKey::Up))
            ||| evt == KeyEvent::KeyPressed(Key::Standard(StandardKey::Down))
            ||| evt == KeyEvent::KeyPressed(Key::Standard(StandardKey::Left))
            ||| evt == KeyEvent::KeyPressed(Key::Standard(StandardKey::Right))
        }),
{
}

impl View for Snake {
    type V = SnakeView;

    closed spec fn view(&self) -> SnakeView {
        SnakeView {
            body: self.snake@,
            food: self.apple,
            run_state: self.state,
            pending_directions: self.actions@,
            last_direction: self.last_direction,
        }
    }
}

impl Snake {
    /// A game that was not started yet: no snake, no turns waiting.
    pub fn new() -> (s: Snake)
        ensures
            s@.body.len() == 0,
            s@.food == (0u8, 0u8),
            s@.run_state == State::Running,
            s@.pending_directions.len() == 0,
            s@.last_direction == Direction::Right,
            s@.well_formed(),
    {
        Snake {
            snake: VecDeque::new(),
            apple: (0, 0),
            state: State::Running,
            actions: VecDeque::new(),
            last_direction: Direction::Right,
        }
    }

    /// Whether the snake covers the cell.
    pub fn occupies(&self, cell: Cell) -> (r: bool)
        ensures
            r == self@.body.contains(cell),
    {
        let n: usize = self.snake.len();
        let mut i: usize = 0;
        while i < n
            invariant
                n == self.snake@.len(),
                i <= n,
                forall|j: int| 0 <= j < i ==> self.snake@[j] != cell,
            decreases n - i,
        {
            let c: Cell = self.snake[i];
            if c.0 == cell.0 && c.1 == cell.1 {
                return true;
            }
            i += 1;
        }
        false
    }

    /// The colours of the snake and the food.
    pub fn to_key_colors(&self) -> (colors: Vec<KeyColor>)
        requires
            self@.seeded(),
            self@.body_fits(),
            in_grid(self@.food),
        ensures
            colors@ == self@.key_colors(),
    {
        let len: usize = self.snake.len();
        let mut colors: Vec<KeyColor> = Vec::new();
        let mut i: usize = 0;
        while i + 1 < len
            invariant
                len == self.snake@.len(),
                len >= 1,
                i + 1 <= len,
                self@.body_fits(),
                colors@.len() == i,
                forall|j: int| 0 <= j < i ==> colors@[j] == self@.key_colors()[j],
            decreases len - i,
        {
            let cell: Cell = self.snake[i + 1];
            let scaled: u128 = (155u128 * ((len - i) as u128)) / (len as u128);
            assert(scaled <= 155) by (nonlinear_arith)
                requires
                    scaled == (155 * (len - i)) / (len as int),
                    0 <= i < len,
            ;
            let blue: u8 = 100 + (scaled as u8);
            colors.push(KeyColor::new(Key::Standard(key_at(cell)), Color::new(0, 0, blue)));
            i += 1;
        }
        let head: Cell = self.snake[0];
        colors.push(KeyColor::new(Key::Standard(key_at(head)), Color::new(0xe9, 0x1e, 0x63)));
        colors.push(KeyColor::new(Key::Standard(key_at(self.apple)), Color::new(0, 255, 0)));
        colors
    }

    /// The cell that a draw of two bytes stands for, if the snake does not
    /// cover it.
    pub fn food_from_draw(&self, a: u8, b: u8) -> (cell: Option<Cell>)
        ensures
            cell == if self@.body.contains(spec_cell_from_draw(a, b)) {
                None
            } else {
                Some(spec_cell_from_draw(a, b))
            },
    {
        let c: Cell = (a % WIDTH, b % HEIGHT);
        if self.occupies(c) {
            None
        } else {
            Some(c)
        }
    }

    /// The first cell, going along the rows from the top left, that the
    /// snake does not cover.
    pub fn first_free_cell(&self) -> (cell: Option<Cell>)
        ensures
            match cell {
                Some(c) => exists|k: int|
                    {
                        &&& 0 <= k < CELLS
                        &&& c == spec_cell_of(k)
                        &&& !self@.body.contains(c)
                        &&& forall|j: int| 0 <= j < k ==> self@.body.contains(#[trigger] spec_cell_of(j))
                    },
                None => forall|j: int| 0 <= j < CELLS ==> self@.body.contains(#[trigger] spec_cell_of(j)),
            },
    {
        let mut k: u8 = 0;
        while k < 52
            invariant
                k <= 52,
                forall|j: int| 0 <= j < k ==> self@.body.contains(#[trigger] spec_cell_of(j)),
            decreases 52 - k,
        {
            let c: Cell = (k % WIDTH, k / WIDTH);
            assert(c == spec_cell_of(k as int));
            if !self.occupies(c) {
                return Some(c);
            }
            k += 1;
        }
        None
    }

    /// Puts the food on a cell of the field that the snake does not cover.
    ///
    /// Cells are drawn from `source` until one is free, the column from
    /// the first byte of a draw and the row from the second. After
    /// [`MAX_DRAWS`] draws without a free cell the first free cell is taken.
    fn new_apple<R: RandomSource>(&mut self, source: &mut R)
        requires
            old(self)@.body.len() < CELLS,
        ensures
            final(self)@.body == old(self)@.body,
            final(self)@.run_state == old(self)@.run_state,
            final(self)@.pending_directions == old(self)@.pending_directions,
            final(self)@.last_direction == old(self)@.last_direction,
            in_grid(final(self)@.food),
            !final(self)@.body.contains(final(self)@.food),
    {
        let mut draws: u32 = 0;
        while draws < MAX_DRAWS
            invariant
                self@ == old(self)@,
            decreases MAX_DRAWS - draws,
        {
            let a: u8 = source.next_u8();
            let b: u8 = source.next_u8();
            match self.food_from_draw(a, b) {
                Some(c) => {
                    self.apple = c;
                    return ;
                },
                None => {},
            }
            draws += 1;
        }
        match self.first_free_cell() {
            Some(c) => {
                self.apple = c;
            },
            None => {
                proof {
                    lemma_full_field(self@.body);
                }
            },
        }
    }

    /// Starts a game, whatever went before: the snake of three cells in the
    /// third row, heading right, no turn waiting, and the food on a free
    /// cell. Cells for the food are drawn from `source`, two bytes each,
    /// until one is free; after [`MAX_DRAWS`] draws the first free cell is
    /// taken.
    pub fn init<R: RandomSource>(&mut self, source: &mut R) -> (cmds: Vec<Command>)
        ensures
            final(self)@.at_start(),
            final(self)@.well_formed(),
            commands_view(cmds@) == final(self)@.start_frame(),
    {
        let mut snake: VecDeque<Cell> = VecDeque::new();
        snake.push_front((1, 2));
        snake.push_front((2, 2));
        snake.push_front((3, 2));
        assert(snake@ =~= start_body());
        self.snake = snake;
        self.apple = (0, 0);
        self.state = State::Running;
        self.actions = VecDeque::new();
        self.last_direction = Direction::Right;
        self.new_apple(source);
        let mut cmds: Vec<Command> = Vec::new();
        cmds.push(Command::SetAll(Color::new(0, 0, 0)));
        cmds.push(Command::SetKeys(self.to_key_colors()));
        assert(commands_view(cmds@) =~= self@.start_frame());
        cmds
    }

    /// The direction that an event asks for.
    pub fn turn(evt: &KeyEvent) -> (d: Option<Direction>)
        ensures
            d == spec_turn(*evt),
    {
        match evt {
            KeyEvent::KeyPressed(Key::Standard(StandardKey::Up)) => Some(Direction::Up),
            KeyEvent::KeyPressed(Key::Standard(StandardKey::Down)) => Some(Direction::Down),
            KeyEvent::KeyPressed(Key::Standard(StandardKey::Left)) => Some(Direction::Left),
            KeyEvent::KeyPressed(Key::Standard(StandardKey::Right)) => Some(Direction::Right),
            _ => None,
        }
    }

    /// Whether the game takes the event.
    pub fn accept_key(&self, evt: &KeyEvent) -> (r: bool)
        ensures
            r == self@.accepts(*evt),
    {
        if self.state == State::Running {
            Snake::turn(evt).is_some()
        } else {
            match evt {
                KeyEvent::KeyPressed(Key::Standard(StandardKey::NumReturn)) => true,
                _ => false,
            }
        }
    }

    /// Takes an event that [`Snake::accept_key`] let through. While the
    /// game runs, the turn is put in line behind at most one other, and
    /// nothing is shown. Once the game is over, a new one is started.
    pub fn handle_key<R: RandomSource>(&mut self, evt: &KeyEvent, source: &mut R) -> (cmds: Vec<
        Command,
    >)
        requires
            old(self)@.well_formed(),
            old(self)@.accepts(*evt),
        ensures
            final(self)@.well_formed(),
            old(self)@.run_state == State::Running ==> {
                &&& final(self)@.body == old(self)@.body
                &&& final(self)@.food == old(self)@.food
                &&& final(self)@.run_state == State::Running
                &&& final(self)@.last_direction == old(self)@.last_direction
                &&& final(self)@.pending_directions == old(self)@.queued(spec_turn(*evt)->0)
                &&& cmds@.len() == 0
            },
            old(self)@.run_state == State::Stop ==> {
                &&& final(self)@.at_start()
                &&& commands_view(cmds@) == final(self)@.start_frame()
            },
    {
        if self.state == State::Running {
            if self.actions.len() >= 2 {
                self.actions.pop_front();
            }
            match Snake::turn(evt) {
                Some(d) => {
                    self.actions.push_back(d);
                },
                None => {},
            }
            Vec::new()
        } else {
            self.init(source)
        }
    }

    /// Whether the game can take a tick of the timer: it was started, and
    /// if the next step reaches the food, a free cell is left for new food
    /// once the snake has grown.
    pub fn can_tick(&self) -> (r: bool)
        ensures
            r == self@.can_tick(),
    {
        if self.snake.len() == 0 {
            return false;
        }
        if self.state == State::Stop {
            return true;
        }
        let d: Direction = if self.actions.len() > 0 {
            self.actions[0]
        } else {
            self.last_direction
        };
        let next: Cell = step(self.snake[0], d);
        let eat: bool = next.0 == self.apple.0 && next.1 == self.apple.1;
        !eat || self.snake.len() <= CELLS - 2
    }

    /// Takes a tick of the timer. A game that is over stays as it is. A
    /// game that runs takes one step: the head goes on in the direction
    /// of the oldest turn in line, or straight on where none is waiting.
    /// Where it reaches the food the snake grows by that cell and new food
    /// is put on a free cell; otherwise the tip of the tail is given up.
    /// Where the head then meets the snake, the game is over and the snake
    /// stays where it was.
    ///
    /// The game must be one that [`Snake::can_tick`].
    pub fn handle_time<R: RandomSource>(&mut self, source: &mut R) -> (cmds: Vec<Command>)
        requires
            old(self)@.well_formed(),
            old(self)@.can_tick(),
        ensures
            final(self)@.well_formed(),
            final(self)@.seeded(),
            old(self)@.run_state == State::Stop ==> {
                &&& final(self)@ == old(self)@
                &&& cmds@.len() == 0
            },
            old(self)@.run_state == State::Running && old(self)@.collides() ==> {
                &&& final(self)@ == old(self)@.crashed()
                &&& commands_view(cmds@) == old(self)@.crash_frame()
            },
            old(self)@.run_state == State::Running && !old(self)@.collides() ==> {
                &&& final(self)@ == old(self)@.moved(final(self)@.food)
                &&& !old(self)@.eats() ==> final(self)@.food == old(self)@.food
                &&& commands_view(cmds@) == old(self)@.move_frame(final(self)@.food)
            },
    {
        if self.state == State::Stop {
            return Vec::new();
        }
        let ghost before = self@;
        let head: Cell = self.snake[0];
        match self.actions.pop_front() {
            Some(d) => {
                self.last_direction = d;
            },
            None => {},
        }
        let next: Cell = step(head, self.last_direction);
        assert(self@.last_direction == before.next_direction());
        assert(next == before.next_head());
        assert(self@.pending_directions =~= before.next_pending());

        let eat: bool = next.0 == self.apple.0 && next.1 == self.apple.1;
        let mut popped: Option<Cell> = None;
        if !eat {
            popped = self.snake.pop_back();
        }
        assert(self@.body =~= before.trailing());

        if self.occupies(next) {
            self.state = State::Stop;
            match popped {
                Some(p) => {
                    self.snake.push_back(p);
                },
                None => {},
            }
            assert(self@.body =~= before.body);
            let mut cmds: Vec<Command> = Vec::new();
            cmds.push(Command::SetAll(Color::new(255, 0, 0)));
            cmds.push(Command::SetKeys(self.to_key_colors()));
            let mut marks: Vec<KeyColor> = Vec::new();
            marks.push(
                KeyColor::new(Key::Standard(StandardKey::NumReturn), Color::new(0, 0, 255)),
            );
            marks.push(KeyColor::new(Key::Standard(key_at(next)), Color::new(255, 165, 0)));
            cmds.push(Command::SetKeys(marks));
            proof {
                let frame = before.crash_frame();
                assert(self@ == before.crashed());
                assert(cmds@[0]@ == frame[0]);
                assert(cmds@[1]@ == frame[1]);
                assert(marks@ =~= frame[2]->SetKeys_0);
                assert(cmds@[2]@ == frame[2]);
                assert(commands_view(cmds@) =~= frame);
            }
            return cmds;
        }
        proof {
            lemma_distinct_in_front(before.trailing(), next);
            lemma_contains_in_front(before.trailing(), next, before.food);
            if !eat {
                if before.trailing().contains(before.food) {
                    lemma_drop_last_contains(before.body, before.food);
                }
            }
        }
        self.snake.push_front(next);
        assert forall|i: int| 0 <= i < self@.body.len() implies in_grid(#[trigger] self@.body[i]) by {
            if i > 0 {
                assert(self@.body[i] == before.body[i - 1]);
            }
        }
        if eat {
            self.new_apple(source);
        }
        let mut colors: Vec<KeyColor> = self.to_key_colors();
        match popped {
            Some(p) => {
                if !self.occupies(p) {
                    colors.push(KeyColor::new(Key::Standard(key_at(p)), Color::new(0, 0, 0)));
                }
            },
            None => {},
        }
        let mut cmds: Vec<Command> = Vec::new();
        cmds.push(Command::SetKeys(colors));
        proof {
            let frame = before.move_frame(self@.food);
            assert(self@ == before.moved(self@.food));
            assert(colors@ =~= frame[0]->SetKeys_0);
            assert(cmds@[0]@ == frame[0]);
            assert(commands_view(cmds@) =~= frame);
        }
        cmds
    }

    /// The cells of the snake, from the head to the tip of the tail.
    pub fn body(&self) -> (cells: Vec<Cell>)
        ensures
            cells@ == self@.body,
    {
        let n: usize = self.snake.len();
        let mut cells: Vec<Cell> = Vec::new();
        let mut i: usize = 0;
        while i < n
            invariant
                n == self.snake@.len(),
                i <= n,
                cells@ == self.snake@.subrange(0, i as int),
            decreases n - i,
        {
            cells.push(self.snake[i]);
            assert(cells@ =~= self.snake@.subrange(0, i + 1));
            i += 1;
        }
        assert(self.snake@.subrange(0, n as int) =~= self.snake@);
        cells
    }

    /// The cell of the food.
    pub fn food(&self) -> (cell: Cell)
        ensures
            cell == self@.food,
    {
        self.apple
    }

    /// Whether the game is on.
    pub fn state(&self) -> (st: State)
        ensures
            st == self@.run_state,
    {
        self.state
    }

    /// The direction of the last step.
    pub fn last_direction(&self) -> (d: Direction)
        ensures
            d == self@.last_direction,
    {
        self.last_direction
    }

    /// The turns that are waiting, oldest first.
    pub fn pending_directions(&self) -> (turns: Vec<Direction>)
        ensures
            turns@ == self@.pending_directions,
    {
        let n: usize = self.actions.len();
        let mut turns: Vec<Direction> = Vec::new();
        let mut i: usize = 0;
        while i < n
            invariant
                n == self.actions@.len(),
                i <= n,
                turns@ == self.actions@.subrange(0, i as int),
            decreases n - i,
        {
            turns.push(self.actions[i]);
            assert(turns@ =~= self.actions@.subrange(0, i + 1));
            i += 1;
        }
        assert(self.actions@.subrange(0, n as int) =~= self.actions@);
        turns
    }
}

} // verus!
