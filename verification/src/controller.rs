//! The game loop as a state machine. The network moves first; after each
//! move that does not end the game the turn passes to the other side. The
//! caller runs the network, reads the terminal and applies moves to the
//! board; the controller decides what to play and whose turn comes next.
//!
//! The controller never holds the board. It asks for a move to be applied by
//! answering with the move's position in the list of legal moves; every other
//! answer leaves the board as it is.

use vstd::prelude::*;
use crate::board::{Move, CELLS};
use crate::error::Error;
use crate::input::{
    interpret_line, is_meaning, lemma_typed_quit_is_quit_token, names_move, quit_token, trimmed,
    Command,
};
use crate::policy::{
    decode_outputs, is_candidate, is_policy_output, is_preferred, lemma_unique_maximum_is_preferred,
    scores_of, select_move, OutputTensor, TieBreak,
};
use crate::score::exceeds;

verus! {

/// Where the session stands.
#[derive(Clone, Copy, Debug, PartialEq, Eq, Structural)]
pub enum Phase {
    /// The network is to move.
    AwaitingNetworkMove,
    /// The human opponent is to move.
    AwaitingHumanMove,
    /// The session is over.
    Terminal,
}

/// What a controller is to the contracts.
pub struct ControllerView {
    pub phase: Phase,
    pub tie_break: TieBreak,
}

/// The phase that follows a move made in `phase`, given whether the move
/// ended the game: the end of the session where it did, the other side's
/// turn where it did not. Nothing follows the end.
pub open spec fn phase_after_move(phase: Phase, game_over: bool) -> Phase {
    match phase {
        Phase::Terminal => Phase::Terminal,
        Phase::AwaitingNetworkMove => if game_over {
            Phase::Terminal
        } else {
            Phase::AwaitingHumanMove
        },
        Phase::AwaitingHumanMove => if game_over {
            Phase::Terminal
        } else {
            Phase::AwaitingNetworkMove
        },
    }
}

/// The phase that follows the reading of a line in the human opponent's
/// turn: the end of the session after the quit token, else the same turn,
/// which lasts until a move is applied.
pub open spec fn phase_after_line(asked: Result<Command, Error>) -> Phase {
    if asked == Ok::<Command, Error>(Command::Quit) {
        Phase::Terminal
    } else {
        Phase::AwaitingHumanMove
    }
}

/// Whether an answer of the human opponent's turn asks the caller to apply a
/// move to the board.
pub open spec fn asks_for_move(asked: Result<Command, Error>) -> bool {
    asked matches Ok(Command::Play(_))
}

/// Whether `chosen` is what the network's turn comes to, given the legal
/// moves and the inference result: a breach of the inference contract where
/// the result is not a policy, else the position of the preferred move, else
/// the report that no move can be preferred.
pub open spec fn is_network_choice(
    moves: Seq<Move>,
    outputs: Seq<OutputTensor>,
    tie: TieBreak,
    chosen: Result<usize, Error>,
) -> bool {
    if is_policy_output(outputs) {
        match chosen {
            Ok(i) => is_preferred(moves, scores_of(outputs), tie, i as int),
            Err(error) => {
                &&& error == Error::NoCandidateMove
                &&& forall|j: int| !is_candidate(moves, scores_of(outputs), j)
            },
        }
    } else {
        chosen == Err::<usize, Error>(Error::InferenceContract)
    }
}

/// Drives one session.
#[derive(Clone, Copy, Debug)]
pub struct Controller {
    phase: Phase,
    tie_break: TieBreak,
}

impl View for Controller {
    type V = ControllerView;

    closed spec fn view(&self) -> ControllerView {
        ControllerView { phase: self.phase, tie_break: self.tie_break }
    }
}

impl Controller {
    /// A session at its start: the network is to move. Of several moves with
    /// the greatest score the network plays the first.
    pub fn new() -> (controller: Controller)
        ensures
            controller@.phase == Phase::AwaitingNetworkMove,
            controller@.tie_break == TieBreak::First,
    {
        Controller { phase: Phase::AwaitingNetworkMove, tie_break: TieBreak::First }
    }

    /// A session at its start in which ties between moves are broken as
    /// `tie_break` says.
    pub fn with_tie_break(tie_break: TieBreak) -> (controller: Controller)
        ensures
            controller@.phase == Phase::AwaitingNetworkMove,
            controller@.tie_break == tie_break,
    {
        Controller { phase: Phase::AwaitingNetworkMove, tie_break }
    }

    /// Where the session stands.
    pub fn phase(&self) -> (phase: Phase)
        ensures
            phase == self@.phase,
    {
        self.phase
    }

    /// How ties between moves are broken.
    pub fn tie_break(&self) -> (tie_break: TieBreak)
        ensures
            tie_break == self@.tie_break,
    {
        self.tie_break
    }

    /// The network's turn: reads the inference result for the current
    /// position and answers with the position, in `moves`, of the move to
    /// play. The phase changes only once the caller reports the move as
    /// applied.
    pub fn network_turn(&self, moves: &Vec<Move>, outputs: &Vec<OutputTensor>) -> (chosen: Result<
        usize,
        Error,
    >)
        requires
            self@.phase == Phase::AwaitingNetworkMove,
        ensures
            is_network_choice(moves@, outputs@, self@.tie_break, chosen),
    {
        match decode_outputs(outputs) {
            Ok(policy) => match select_move(moves, &policy, self.tie_break) {
                Some(i) => Ok(i),
                None => Err(Error::NoCandidateMove),
            },
            Err(error) => Err(error),
        }
    }

    /// The human opponent's turn: reads the typed line. The quit token ends
    /// the session at once. A move is answered by its position in `moves`,
    /// and the phase changes only once the caller reports it as applied. An
    /// invalid line is reported and leaves the phase as it was.
    pub fn human_turn(&mut self, moves: &Vec<Move>, line: &str) -> (asked: Result<Command, Error>)
        requires
            old(self)@.phase == Phase::AwaitingHumanMove,
        ensures
            is_meaning(moves@, line@, asked),
            final(self)@.phase == phase_after_line(asked),
            final(self)@.tie_break == old(self)@.tie_break,
    {
        let asked = interpret_line(moves, line);
        match asked {
            Ok(Command::Quit) => {
                self.phase = Phase::Terminal;
            },
            _ => {},
        }
        asked
    }

    /// Records that the move chosen in this phase was applied to the board,
    /// and whether the game is over now.
    pub fn move_applied(&mut self, game_over: bool)
        ensures
            final(self)@.phase == phase_after_move(old(self)@.phase, game_over),
            final(self)@.tie_break == old(self)@.tie_break,
    {
        self.phase = match self.phase {
            Phase::Terminal => Phase::Terminal,
            Phase::AwaitingNetworkMove => if game_over {
                Phase::Terminal
            } else {
                Phase::AwaitingHumanMove
            },
            Phase::AwaitingHumanMove => if game_over {
                Phase::Terminal
            } else {
                Phase::AwaitingNetworkMove
            },
        };
    }
}

/// Where the network answers with a policy in which one cell's score exceeds
/// that of every other cell, and a legal move plays that cell, the network's
/// turn comes to a move on that cell.
pub proof fn lemma_network_plays_unique_maximum(
    moves: Seq<Move>,
    outputs: Seq<OutputTensor>,
    tie: TieBreak,
    chosen: Result<usize, Error>,
    cell: int,
    at: int,
)
    requires
        forall|j: int| 0 <= j < moves.len() ==> 0 <= (#[trigger] moves[j])@.cell < CELLS,
        is_policy_output(outputs),
        0 <= cell < CELLS,
        forall|c: int|
            0 <= c < CELLS && c != cell ==> exceeds(
                scores_of(outputs)[cell],
                #[trigger] scores_of(outputs)[c],
            ),
        0 <= at < moves.len(),
        moves[at]@.cell == cell,
        is_network_choice(moves, outputs, tie, chosen),
    ensures
        chosen matches Ok(i) && moves[i as int]@.cell == cell,
{
    lemma_unique_maximum_is_preferred(moves, scores_of(outputs), tie, cell, at);
    let i = choose|i: int| is_preferred(moves, scores_of(outputs), tie, i);
    assert(is_candidate(moves, scores_of(outputs), i));
}

/// The quit token, with or without white space around it, ends the session
/// and asks for no move.
pub proof fn lemma_quit_ends_session(
    moves: Seq<Move>,
    line: Seq<char>,
    asked: Result<Command, Error>,
)
    requires
        line == quit_token() || trimmed(line) == quit_token(),
        is_meaning(moves, line, asked),
    ensures
        asked == Ok::<Command, Error>(Command::Quit),
        phase_after_line(asked) == Phase::Terminal,
        !asks_for_move(asked),
{
    if line == quit_token() {
        lemma_typed_quit_is_quit_token(line);
    }
}

/// A line that is neither the quit token nor the notation of a legal move is
/// reported as invalid, asks for no move and leaves the turn with the human
/// opponent.
pub proof fn lemma_unknown_text_is_invalid(
    moves: Seq<Move>,
    line: Seq<char>,
    asked: Result<Command, Error>,
)
    requires
        trimmed(line) != quit_token(),
        forall|j: int| !names_move(moves, trimmed(line), j),
        is_meaning(moves, line, asked),
    ensures
        asked == Err::<Command, Error>(Error::InvalidMoveInput),
        phase_after_line(asked) == Phase::AwaitingHumanMove,
        !asks_for_move(asked),
{
    if let Ok(Command::Play(i)) = asked {
        assert(names_move(moves, trimmed(line), i as int));
    }
}

} // verus!
