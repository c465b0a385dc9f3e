//! The playing field of the game: thirteen columns and four rows, laid over
//! the letter block of the keyboard, and closed on itself at every edge.

use vstd::prelude::*;
use crate::keys::StandardKey;

verus! {

/// The number of columns.
pub const WIDTH: u8 = 13;

/// The number of rows.
pub const HEIGHT: u8 = 4;

/// The number of cells.
pub const CELLS: usize = 52;

/// A cell of the field: its column, counted from the left, and its row,
/// counted from the top.
pub type Cell = (u8, u8);

/// The four ways to go.
#[derive(Clone, Copy, Debug, PartialEq, Eq, Structural, Hash)]
pub enum Direction {
    Up,
    Down,
    Left,
    Right,
}

/// Whether the cell lies on the field.
pub open spec fn in_grid(cell: Cell) -> bool {
    cell.0 < WIDTH && cell.1 < HEIGHT
}

/// The cell one step from `cell` in direction `d`. A step over an edge
/// comes back in at the opposite edge.
pub open spec fn spec_step(cell: Cell, d: Direction) -> Cell {
    match d {
        Direction::Up => (cell.0, ((cell.1 - 1) % (HEIGHT as int)) as u8),
        Direction::Down => (cell.0, ((cell.1 + 1) % (HEIGHT as int)) as u8),
        Direction::Left => (((cell.0 - 1) % (WIDTH as int)) as u8, cell.1),
        Direction::Right => (((cell.0 + 1) % (WIDTH as int)) as u8, cell.1),
    }
}

/// The keys under the field, row by row.
pub open spec fn field() -> Seq<Seq<StandardKey>> {
    seq![
        seq![
            StandardKey::Circumflex, StandardKey::_1, StandardKey::_2, StandardKey::_3,
            StandardKey::_4, StandardKey::_5, StandardKey::_6, StandardKey::_7,
            StandardKey::_8, StandardKey::_9, StandardKey::_0, StandardKey::Sz,
            StandardKey::Tick,
        ],
        seq![
            StandardKey::Tab, StandardKey::Q, StandardKey::W, StandardKey::E,
            StandardKey::R, StandardKey::T, StandardKey::Z, StandardKey::U,
            StandardKey::I, StandardKey::O, StandardKey::P, StandardKey::Uuml,
            StandardKey::Plus,
        ],
        seq![
            StandardKey::CapsLock, StandardKey::A, StandardKey::S, StandardKey::D,
            StandardKey::F, StandardKey::G, StandardKey::H, StandardKey::J,
            StandardKey::K, StandardKey::L, StandardKey::Ouml, StandardKey::Auml,
            StandardKey::Sharp,
        ],
        seq![
            StandardKey::LeftShift, StandardKey::SmallerThan, StandardKey::Y, StandardKey::X,
            StandardKey::C, StandardKey::V, StandardKey::B, StandardKey::N,
            StandardKey::M, StandardKey::Comma, StandardKey::Dot, StandardKey::Minus,
            StandardKey::RightShift,
        ],
    ]
}

/// The key under a cell of the field.
pub open spec fn spec_key_at(cell: Cell) -> StandardKey {
    field()[cell.1 as int][cell.0 as int]
}

/// Adding `m - 1` and taking one off lead to the same place modulo `m`.
proof fn lemma_wrap_back(a: int, m: int)
    requires
        m > 0,
    ensures
        (a + (m - 1)) % m == (a - 1) % m,
{
    vstd::arithmetic::div_mod::lemma_mod_add_multiples_vanish(a - 1, m);
}

/// A step from a cell of the field leads to a cell of the field.
pub proof fn lemma_step_stays_on_field(cell: Cell, d: Direction)
    requires
        in_grid(cell),
    ensures
        in_grid(spec_step(cell, d)),
{
}

/// The field is closed on itself: a step to the left from the first column
/// leads to the last column of the same row, a step to the right from the
/// last column to the first, and likewise up from the first row and down
/// from the last.
pub proof fn lemma_step_wraps(column: u8, row: u8)
    requires
        column < WIDTH,
        row < HEIGHT,
    ensures
        spec_step((0, row), Direction::Left) == ((WIDTH - 1) as u8, row),
        spec_step(((WIDTH - 1) as u8, row), Direction::Right) == (0u8, row),
        spec_step((column, 0), Direction::Up) == (column, (HEIGHT - 1) as u8),
        spec_step((column, (HEIGHT - 1) as u8), Direction::Down) == (column, 0u8),
{
}

/// Away from the edges a step changes one coordinate by one.
pub proof fn lemma_step_inside(cell: Cell)
    requires
        in_grid(cell),
    ensures
        cell.0 > 0 ==> spec_step(cell, Direction::Left) == ((cell.0 - 1) as u8, cell.1),
        cell.0 + 1 < WIDTH ==> spec_step(cell, Direction::Right) == ((cell.0 + 1) as u8, cell.1),
        cell.1 > 0 ==> spec_step(cell, Direction::Up) == (cell.0, (cell.1 - 1) as u8),
        cell.1 + 1 < HEIGHT ==> spec_step(cell, Direction::Down) == (cell.0, (cell.1 + 1) as u8),
{
}

/// No key lies under two cells of the field.
pub proof fn lemma_field_keys_differ(a: Cell, b: Cell)
    requires
        in_grid(a),
        in_grid(b),
        a != b,
    ensures
        spec_key_at(a) != spec_key_at(b),
{
}

/// Goes one step from `cell` in direction `d`, around the edges.
pub fn step(cell: Cell, d: Direction) -> (next: Cell)
    ensures
        next == spec_step(cell, d),
        in_grid(cell) ==> in_grid(next),
{
    let x: u16 = cell.0 as u16;
    let y: u16 = cell.1 as u16;
    let w: u16 = WIDTH as u16;
    let h: u16 = HEIGHT as u16;
    proof {
        lemma_wrap_back(cell.0 as int, WIDTH as int);
        lemma_wrap_back(cell.1 as int, HEIGHT as int);
    }
    match d {
        Direction::Up => (cell.0, ((y + (h - 1)) % h) as u8),
        Direction::Down => (cell.0, ((y + 1) % h) as u8),
        Direction::Left => (((x + (w - 1)) % w) as u8, cell.1),
        Direction::Right => (((x + 1) % w) as u8, cell.1),
    }
}

/// Looks up the key under a cell of the field.
pub fn key_at(cell: Cell) -> (key: StandardKey)
    requires
        in_grid(cell),
    ensures
        key == spec_key_at(cell),
{
    let rows: [[StandardKey; 13]; 4] = [
        [
            StandardKey::Circumflex, StandardKey::_1, StandardKey::_2, StandardKey::_3,
            StandardKey::_4, StandardKey::_5, StandardKey::_6, StandardKey::_7,
            StandardKey::_8, StandardKey::_9, StandardKey::_0, StandardKey::Sz,
            StandardKey::Tick,
        ],
        [
            StandardKey::Tab, StandardKey::Q, StandardKey::W, StandardKey::E,
            StandardKey::R, StandardKey::T, StandardKey::Z, StandardKey::U,
            StandardKey::I, StandardKey::O, StandardKey::P, StandardKey::Uuml,
            StandardKey::Plus,
        ],
        [
            StandardKey::CapsLock, StandardKey::A, StandardKey::S, StandardKey::D,
            StandardKey::F, StandardKey::G, StandardKey::H, StandardKey::J,
            StandardKey::K, StandardKey::L, StandardKey::Ouml, StandardKey::Auml,
            StandardKey::Sharp,
        ],
        [
            StandardKey::LeftShift, StandardKey::SmallerThan, StandardKey::Y, StandardKey::X,
            StandardKey::C, StandardKey::V, StandardKey::B, StandardKey::N,
            StandardKey::M, StandardKey::Comma, StandardKey::Dot, StandardKey::Minus,
            StandardKey::RightShift,
        ],
    ];
    rows[cell.1 as usize][cell.0 as usize]
}

} // verus!
