//! The position as the rest of the crate sees it: eighty-one cells, each empty
//! or holding one player's stone, and the moves that a rules engine offers.

use vstd::prelude::*;

verus! {

/// Cells along one edge of the board.
pub const SIDE: usize = 9;

/// Cells on the board.
pub const CELLS: usize = 81;

/// What one cell holds.
#[derive(Clone, Copy, Debug, PartialEq, Eq, Structural)]
pub enum Cell {
    /// No stone.
    Empty,
    /// A stone of the player who marks with X.
    PlayerX,
    /// A stone of the player who marks with O.
    PlayerO,
}

/// A position: the cells in row-major order, the cell in row `r` and column
/// `c` at index `9 * r + c`.
#[derive(Clone, Copy, Debug)]
pub struct Board {
    pub cells: [Cell; 81],
}

impl View for Board {
    type V = Seq<Cell>;

    open spec fn view(&self) -> Seq<Cell> {
        self.cells@
    }
}

impl Board {
    /// The board before any stone is placed.
    pub fn new() -> (board: Board)
        ensures
            forall|i: int| 0 <= i < CELLS ==> board@[i] == Cell::Empty,
    {
        Board { cells: [Cell::Empty; 81] }
    }

    /// What the cell at `index` holds; `None` off the board.
    pub fn cell(&self, index: usize) -> (cell: Option<Cell>)
        ensures
            cell == if index < CELLS {
                Some(self@[index as int])
            } else {
                None
            },
    {
        if index < CELLS {
            Some(self.cells[index])
        } else {
            None
        }
    }

    /// Puts `cell` at `index`. An index off the board changes nothing and is
    /// answered with `false`.
    pub fn set(&mut self, index: usize, cell: Cell) -> (done: bool)
        ensures
            done == (index < CELLS),
            final(self)@ == if done {
                old(self)@.update(index as int, cell)
            } else {
                old(self)@
            },
    {
        if index < CELLS {
            self.cells[index] = cell;
            true
        } else {
            false
        }
    }
}

/// What a move is to the contracts: the cell it plays and how it is written.
pub struct MoveView {
    pub cell: int,
    pub notation: Seq<char>,
}

/// A move that the rules engine offers: the flat index of its cell, below
/// eighty-one, and its textual notation.
#[derive(Debug)]
pub struct Move {
    cell: usize,
    notation: String,
}

impl View for Move {
    type V = MoveView;

    closed spec fn view(&self) -> MoveView {
        MoveView { cell: self.cell as int, notation: self.notation@ }
    }
}

impl Move {
    #[verifier::type_invariant]
    spec fn on_board(&self) -> bool {
        self.cell < CELLS
    }

    /// The move on `cell` that is written `notation`; `None` where `cell` is
    /// off the board.
    pub fn new(cell: usize, notation: String) -> (made: Option<Move>)
        ensures
            made is Some <==> cell < CELLS,
            made matches Some(m) ==> m@.cell == cell && m@.notation == notation@,
    {
        if cell < CELLS {
            Some(Move { cell, notation })
        } else {
            None
        }
    }

    /// The flat index of the cell that the move plays.
    pub fn index(&self) -> (cell: usize)
        ensures
            cell == self@.cell,
            cell < CELLS,
    {
        proof {
            use_type_invariant(self);
        }
        self.cell
    }

    /// How the move is written.
    pub fn notation(&self) -> (text: &String)
        ensures
            text@ == self@.notation,
    {
        &self.notation
    }
}

} // verus!
