//! The network's input: two planes of eighty-one entries each, the first
//! marking the cells that hold an X, the second those that hold an O.
//!
//! An entry is zero or one. The caller hands the entries to the network as
//! single-precision numbers, in this order, as one row of a tensor.

use vstd::prelude::*;
use crate::board::{Board, Cell, CELLS};

verus! {

/// Entries of the feature vector: two planes of one entry for each cell.
pub const FEATURES: usize = 162;

/// Entry `k` of the feature vector of `cells`: in the first plane, one where
/// cell `k` holds an X; in the second, one where cell `k - 81` holds an O;
/// zero everywhere else.
pub open spec fn feature(cells: Seq<Cell>, k: int) -> u8 {
    if 0 <= k < CELLS && cells[k] == Cell::PlayerX {
        1
    } else if CELLS <= k < FEATURES && cells[k - CELLS] == Cell::PlayerO {
        1
    } else {
        0
    }
}

/// The feature vector of `cells`.
pub open spec fn feature_planes(cells: Seq<Cell>) -> Seq<u8> {
    Seq::new(FEATURES as nat, |k: int| feature(cells, k))
}

/// How many of `cells` hold a stone.
pub open spec fn stones(cells: Seq<Cell>) -> nat
    decreases cells.len(),
{
    if cells.len() == 0 {
        0
    } else {
        stones(cells.drop_last()) + if cells.last() == Cell::Empty {
            0nat
        } else {
            1nat
        }
    }
}

/// How many of `entries` are one.
pub open spec fn ones(entries: Seq<u8>) -> nat
    decreases entries.len(),
{
    if entries.len() == 0 {
        0
    } else {
        ones(entries.drop_last()) + if entries.last() == 1 {
            1nat
        } else {
            0nat
        }
    }
}

/// Encodes a position as the network's input. The result depends on the
/// cells alone, so equal positions have equal encodings. It has as many ones
/// as the position has stones, and zeros everywhere else.
pub fn encode(board: &Board) -> (features: Vec<u8>)
    ensures
        features@ == feature_planes(board@),
        features@.len() == FEATURES,
        ones(features@) == stones(board@),
        forall|k: int| 0 <= k < FEATURES ==> features@[k] == 0 || features@[k] == 1,
{
    let mut features: Vec<u8> = Vec::new();
    let mut k: usize = 0;
    while k < FEATURES
        invariant
            k <= FEATURES,
            features@.len() == k,
            forall|j: int| 0 <= j < k ==> features@[j] == 0,
        decreases FEATURES - k,
    {
        features.push(0);
        k = k + 1;
    }
    let mut i: usize = 0;
    while i < CELLS
        invariant
            i <= CELLS,
            features@.len() == FEATURES,
            forall|j: int| 0 <= j < i ==> features@[j] == feature(board@, j),
            forall|j: int| CELLS <= j < CELLS + i ==> features@[j] == feature(board@, j),
            forall|j: int| i <= j < CELLS ==> features@[j] == 0,
            forall|j: int| CELLS + i <= j < FEATURES ==> features@[j] == 0,
        decreases CELLS - i,
    {
        match board.cells[i] {
            Cell::PlayerX => {
                features.set(i, 1);
            },
            Cell::PlayerO => {
                features.set(i + CELLS, 1);
            },
            Cell::Empty => {},
        }
        i = i + 1;
    }
    assert(features@ =~= feature_planes(board@));
    proof {
        lemma_ones_match_stones(board@);
    }
    features
}

/// How many of the first `n` cells hold `mark`.
spec fn marked(cells: Seq<Cell>, mark: Cell, n: int) -> nat
    decreases n,
{
    if n <= 0 {
        0
    } else {
        marked(cells, mark, n - 1) + if cells[n - 1] == mark {
            1nat
        } else {
            0nat
        }
    }
}

proof fn lemma_stones_by_mark(cells: Seq<Cell>)
    ensures
        stones(cells) == marked(cells, Cell::PlayerX, cells.len() as int) + marked(
            cells,
            Cell::PlayerO,
            cells.len() as int,
        ),
    decreases cells.len(),
{
    if cells.len() > 0 {
        let front = cells.drop_last();
        lemma_stones_by_mark(front);
        lemma_marked_of_prefix(cells, front, Cell::PlayerX, front.len() as int);
        lemma_marked_of_prefix(cells, front, Cell::PlayerO, front.len() as int);
    }
}

proof fn lemma_marked_of_prefix(cells: Seq<Cell>, front: Seq<Cell>, mark: Cell, n: int)
    requires
        0 <= n <= front.len() <= cells.len(),
        forall|i: int| 0 <= i < front.len() ==> front[i] == cells[i],
    ensures
        marked(front, mark, n) == marked(cells, mark, n),
    decreases n,
{
    if n > 0 {
        lemma_marked_of_prefix(cells, front, mark, n - 1);
    }
}

/// The ones among the first `n` entries of the feature vector: the X cells
/// of the first plane, then the O cells of the second.
proof fn lemma_ones_of_prefix(cells: Seq<Cell>, n: int)
    requires
        cells.len() == CELLS,
        0 <= n <= FEATURES,
    ensures
        ones(feature_planes(cells).take(n)) == if n <= CELLS {
            marked(cells, Cell::PlayerX, n)
        } else {
            marked(cells, Cell::PlayerX, CELLS as int) + marked(cells, Cell::PlayerO, n - CELLS)
        },
    decreases n,
{
    let planes = feature_planes(cells);
    if n > 0 {
        lemma_ones_of_prefix(cells, n - 1);
        assert(planes.take(n).drop_last() =~= planes.take(n - 1));
        assert(planes.take(n).last() == feature(cells, n - 1));
    }
}

/// The feature vector has as many ones as the position has stones, and every
/// other entry is zero.
pub proof fn lemma_ones_match_stones(cells: Seq<Cell>)
    requires
        cells.len() == CELLS,
    ensures
        feature_planes(cells).len() == FEATURES,
        ones(feature_planes(cells)) == stones(cells),
        forall|k: int|
            0 <= k < FEATURES ==> feature_planes(cells)[k] == 0 || feature_planes(cells)[k] == 1,
{
    let planes = feature_planes(cells);
    lemma_ones_of_prefix(cells, FEATURES as int);
    assert(planes.take(FEATURES as int) =~= planes);
    lemma_stones_by_mark(cells);
}

/// Two positions with the same cells have the same feature vector: whenever
/// a position is encoded again, the same vector comes out.
pub proof fn lemma_encoding_is_deterministic(first: Board, second: Board)
    requires
        first@ == second@,
    ensures
        feature_planes(first@) == feature_planes(second@),
{
}

/// The empty board's feature vector is all zero.
pub proof fn lemma_empty_board_is_all_zero(cells: Seq<Cell>)
    requires
        cells.len() == CELLS,
        forall|i: int| 0 <= i < CELLS ==> cells[i] == Cell::Empty,
    ensures
        feature_planes(cells).len() == FEATURES,
        forall|k: int| 0 <= k < FEATURES ==> feature_planes(cells)[k] == 0,
{
}

} // verus!
