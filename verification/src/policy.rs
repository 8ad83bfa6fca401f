//! The network's answer: one score for each cell of the board, and the choice
//! of the move that it prefers.

use vstd::prelude::*;
use crate::board::{Move, CELLS};
use crate::error::Error;
use crate::score::{exceeds, greater, is_nan, is_number, order_key};

verus! {

/// One tensor of an inference result, as far as this crate reads it.
#[derive(Debug)]
pub enum OutputTensor {
    /// A tensor of single-precision numbers: the bits of its elements, in
    /// row-major order.
    Single(Vec<u32>),
    /// A tensor of any other element type.
    Other,
}

/// The scores of the eighty-one cells, each by its bits.
#[derive(Clone, Copy, Debug)]
pub struct Policy {
    pub scores: [u32; 81],
}

impl View for Policy {
    type V = Seq<u32>;

    open spec fn view(&self) -> Seq<u32> {
        self.scores@
    }
}

/// Whether an inference result is what a policy network must return: exactly
/// one tensor, of single-precision numbers, with one element for each cell.
pub open spec fn is_policy_output(outputs: Seq<OutputTensor>) -> bool {
    &&& outputs.len() == 1
    &&& outputs[0] matches OutputTensor::Single(scores)
    &&& scores@.len() == CELLS
}

/// The scores that a policy output holds.
pub open spec fn scores_of(outputs: Seq<OutputTensor>) -> Seq<u32>
    recommends
        is_policy_output(outputs),
{
    outputs[0]->Single_0@
}

/// Reads an inference result as a policy. Anything but a single tensor of
/// eighty-one single-precision scores is a breach of the inference contract.
pub fn decode_outputs(outputs: &Vec<OutputTensor>) -> (decoded: Result<Policy, Error>)
    ensures
        decoded is Ok <==> is_policy_output(outputs@),
        decoded matches Ok(policy) ==> policy@ == scores_of(outputs@),
        decoded matches Err(error) ==> error == Error::InferenceContract,
{
    if outputs.len() != 1 {
        return Err(Error::InferenceContract);
    }
    match &outputs[0] {
        OutputTensor::Single(values) => {
            if values.len() != CELLS {
                return Err(Error::InferenceContract);
            }
            let mut scores: [u32; 81] = [0u32; 81];
            let mut i: usize = 0;
            while i < CELLS
                invariant
                    i <= CELLS,
                    values@.len() == CELLS,
                    forall|k: int| 0 <= k < i ==> scores@[k] == values@[k],
                decreases CELLS - i,
            {
                scores[i] = values[i];
                i = i + 1;
            }
            assert(scores@ =~= values@);
            Ok(Policy { scores })
        },
        OutputTensor::Other => Err(Error::InferenceContract),
    }
}

/// Which of several moves with the greatest score is preferred.
#[derive(Clone, Copy, Debug, PartialEq, Eq, Structural)]
pub enum TieBreak {
    /// The one that the rules engine offers first.
    First,
    /// The one that the rules engine offers last.
    Last,
}

/// Whether, under `tie`, the move at position `j` wins a tie against the one
/// at position `i`.
pub open spec fn wins_tie(tie: TieBreak, j: int, i: int) -> bool {
    match tie {
        TieBreak::First => j < i,
        TieBreak::Last => j > i,
    }
}

/// The score of the cell that the move at position `i` plays.
pub open spec fn score_of(moves: Seq<Move>, scores: Seq<u32>, i: int) -> u32 {
    scores[moves[i]@.cell]
}

/// Whether position `i` holds a move that can be chosen: one whose score is a
/// number.
pub open spec fn is_candidate(moves: Seq<Move>, scores: Seq<u32>, i: int) -> bool {
    0 <= i < moves.len() && !is_nan(score_of(moves, scores, i))
}

/// Whether position `i` holds the preferred move: a candidate that no
/// candidate outscores and that outscores every candidate that would win a
/// tie against it.
pub open spec fn is_preferred(moves: Seq<Move>, scores: Seq<u32>, tie: TieBreak, i: int) -> bool {
    &&& is_candidate(moves, scores, i)
    &&& forall|j: int| #[trigger]
        is_candidate(moves, scores, j) ==> order_key(score_of(moves, scores, j)) <= order_key(
            score_of(moves, scores, i),
        )
    &&& forall|j: int| #[trigger]
        is_candidate(moves, scores, j) && wins_tie(tie, j, i) ==> order_key(
            score_of(moves, scores, j),
        ) < order_key(score_of(moves, scores, i))
}

/// The position, in `moves`, of the move that the policy prefers: of those
/// with the greatest score the one that `tie` names. Scores that are not
/// numbers are passed over; `None` where no move is left.
pub fn select_move(moves: &Vec<Move>, policy: &Policy, tie: TieBreak) -> (choice: Option<usize>)
    ensures
        match choice {
            Some(i) => is_preferred(moves@, policy@, tie, i as int),
            None => forall|j: int| !is_candidate(moves@, policy@, j),
        },
{
    let mut best: Option<usize> = None;
    let mut i: usize = 0;
    while i < moves.len()
        invariant
            i <= moves.len(),
            match best {
                Some(b) => b < i && is_preferred(moves@.take(i as int), policy@, tie, b as int),
                None => forall|j: int| !is_candidate(moves@.take(i as int), policy@, j),
            },
        decreases moves.len() - i,
    {
        let score: u32 = policy.scores[moves[i].index()];
        let ghost before = moves@.take(i as int);
        let ghost after = moves@.take(i as int + 1);
        assert(forall|j: int| 0 <= j < i ==> before[j] == after[j]);
        assert(after[i as int] == moves@[i as int]);
        assert(forall|j: int|
            is_candidate(after, policy@, j) && j < i ==> is_candidate(before, policy@, j));
        assert(forall|j: int|
            is_candidate(before, policy@, j) ==> is_candidate(after, policy@, j));
        match best {
            Some(b) => {
                let held: u32 = policy.scores[moves[b].index()];
                let replace = match tie {
                    TieBreak::First => greater(score, held),
                    TieBreak::Last => is_number(score) && !greater(held, score),
                };
                if replace {
                    best = Some(i);
                }
            },
            None => {
                if is_number(score) {
                    best = Some(i);
                }
            },
        }
        i = i + 1;
    }
    assert(moves@.take(i as int) =~= moves@);
    best
}

/// At most one position holds the preferred move, so `select_move` has one
/// possible answer for each list of moves, each policy and each way to break
/// ties.
pub proof fn lemma_preferred_is_unique(
    moves: Seq<Move>,
    scores: Seq<u32>,
    tie: TieBreak,
    i: int,
    k: int,
)
    requires
        is_preferred(moves, scores, tie, i),
        is_preferred(moves, scores, tie, k),
    ensures
        i == k,
{
    if i != k {
        assert(is_candidate(moves, scores, i));
        assert(is_candidate(moves, scores, k));
        assert(wins_tie(tie, i, k) || wins_tie(tie, k, i));
    }
}

/// Where one cell's score exceeds the score of every other cell and a legal
/// move plays that cell, a preferred move exists and every preferred move
/// plays that cell, however ties are broken.
pub proof fn lemma_unique_maximum_is_preferred(
    moves: Seq<Move>,
    scores: Seq<u32>,
    tie: TieBreak,
    cell: int,
    at: int,
)
    requires
        scores.len() == CELLS,
        forall|j: int| 0 <= j < moves.len() ==> 0 <= (#[trigger] moves[j])@.cell < CELLS,
        0 <= cell < CELLS,
        forall|c: int| 0 <= c < CELLS && c != cell ==> exceeds(scores[cell], #[trigger] scores[c]),
        0 <= at < moves.len(),
        moves[at]@.cell == cell,
    ensures
        exists|i: int| is_preferred(moves, scores, tie, i),
        forall|i: int| is_preferred(moves, scores, tie, i) ==> moves[i]@.cell == cell,
{
    let other: int = if cell == 0 {
        1
    } else {
        0
    };
    assert(exceeds(scores[cell], scores[other]));
    let winner = tie_winner_on_cell(moves, tie, cell, at);
    assert(is_candidate(moves, scores, winner));
    assert forall|j: int| #[trigger] is_candidate(moves, scores, j) implies order_key(
        score_of(moves, scores, j),
    ) <= order_key(score_of(moves, scores, winner)) by {
        let c = moves[j]@.cell;
        if c != cell {
            assert(exceeds(scores[cell], scores[c]));
        }
    }
    assert forall|j: int| #[trigger]
        is_candidate(moves, scores, j) && wins_tie(tie, j, winner) implies order_key(
        score_of(moves, scores, j),
    ) < order_key(score_of(moves, scores, winner)) by {
        let c = moves[j]@.cell;
        assert(c != cell);
        assert(exceeds(scores[cell], scores[c]));
    }
    assert(is_preferred(moves, scores, tie, winner));
    assert forall|i: int| is_preferred(moves, scores, tie, i) implies moves[i]@.cell == cell by {
        lemma_preferred_is_unique(moves, scores, tie, i, winner);
    }
}

/// Among the positions whose move plays `cell`, the one that wins a tie
/// against all the others.
proof fn tie_winner_on_cell(moves: Seq<Move>, tie: TieBreak, cell: int, at: int) -> (winner: int)
    requires
        0 <= at < moves.len(),
        moves[at]@.cell == cell,
    ensures
        0 <= winner < moves.len(),
        moves[winner]@.cell == cell,
        forall|j: int|
            0 <= j < moves.len() && wins_tie(tie, j, winner) ==> (#[trigger] moves[j])@.cell
                != cell,
    decreases
            match tie {
                TieBreak::First => at,
                TieBreak::Last => moves.len() - at,
            },
{
    if exists|j: int| 0 <= j < moves.len() && wins_tie(tie, j, at) && moves[j]@.cell == cell {
        let j = choose|j: int|
            0 <= j < moves.len() && wins_tie(tie, j, at) && moves[j]@.cell == cell;
        tie_winner_on_cell(moves, tie, cell, j)
    } else {
        at
    }
}

} // verus!
