//! The human opponent's turn: a line of text that either ends the session or
//! names one of the legal moves.

use vstd::prelude::*;
use crate::board::Move;
use crate::error::Error;

verus! {

/// Whether `c` is white space: a character with the Unicode property
/// White_Space.
pub open spec fn is_white_space(c: char) -> bool {
    let code = c as u32;
    ||| 0x09 <= code <= 0x0D
    ||| code == 0x20
    ||| code == 0x85
    ||| code == 0xA0
    ||| code == 0x1680
    ||| 0x2000 <= code <= 0x200A
    ||| code == 0x2028
    ||| code == 0x2029
    ||| code == 0x202F
    ||| code == 0x205F
    ||| code == 0x3000
}

/// `text` without the white space that it begins with.
pub open spec fn trim_start(text: Seq<char>) -> Seq<char>
    decreases text.len(),
{
    if text.len() > 0 && is_white_space(text.first()) {
        trim_start(text.drop_first())
    } else {
        text
    }
}

/// `text` without the white space that it ends with.
pub open spec fn trim_end(text: Seq<char>) -> Seq<char>
    decreases text.len(),
{
    if text.len() > 0 && is_white_space(text.last()) {
        trim_end(text.drop_last())
    } else {
        text
    }
}

/// `text` without the white space at either end.
pub open spec fn trimmed(text: Seq<char>) -> Seq<char> {
    trim_end(trim_start(text))
}

/// The line that ends the session.
pub open spec fn quit_token() -> Seq<char> {
    seq!['q']
}

/// Calls `str::trim`, which returns the part of a string slice that is left
/// when the white space at its start and at its end is removed, white space
/// being the characters with the Unicode property White_Space. The contract
/// claims that this part is `trimmed` of the line, and so that
/// `is_white_space` lists exactly the characters with that property. Verus
/// takes this on trust.
#[verifier::external_body]
fn trim<'a>(line: &'a str) -> (text: &'a str)
    ensures
        text@ == trimmed(line@),
{
    line.trim()
}

/// What the human opponent asks for.
#[derive(Clone, Copy, Debug, PartialEq, Eq, Structural)]
pub enum Command {
    /// End the session without a move.
    Quit,
    /// Play the legal move at this position of the list.
    Play(usize),
}

/// Whether the move at position `i` is written `text`.
pub open spec fn names_move(moves: Seq<Move>, text: Seq<char>, i: int) -> bool {
    0 <= i < moves.len() && moves[i]@.notation == text
}

/// Whether position `i` is the first whose move is written `text`.
pub open spec fn is_first_named(moves: Seq<Move>, text: Seq<char>, i: int) -> bool {
    &&& names_move(moves, text, i)
    &&& forall|j: int| 0 <= j < i ==> !names_move(moves, text, j)
}

/// Whether `asked` is what `line` asks for, given the legal moves in the
/// order in which the rules engine offers them. The line is read without the
/// white space at its ends. The quit token ends the session, whatever the
/// moves are called. Any other text stands for the first legal move so
/// written, and is invalid where no legal move is so written.
pub open spec fn is_meaning(
    moves: Seq<Move>,
    line: Seq<char>,
    asked: Result<Command, Error>,
) -> bool {
    let text = trimmed(line);
    match asked {
        Ok(Command::Quit) => text == quit_token(),
        Ok(Command::Play(i)) => text != quit_token() && is_first_named(moves, text, i as int),
        Err(error) => {
            &&& error == Error::InvalidMoveInput
            &&& text != quit_token()
            &&& forall|j: int| !names_move(moves, text, j)
        },
    }
}

/// Reads a line typed by the human opponent.
pub fn interpret_line(moves: &Vec<Move>, line: &str) -> (asked: Result<Command, Error>)
    ensures
        is_meaning(moves@, line@, asked),
{
    let text: String = trim(line).to_owned();
    let quit: String = "q".to_owned();
    proof {
        reveal_strlit("q");
        assert("q"@ =~= quit_token());
    }
    if text == quit {
        return Ok(Command::Quit);
    }
    let mut i: usize = 0;
    while i < moves.len()
        invariant
            i <= moves.len(),
            text@ == trimmed(line@),
            text@ != quit_token(),
            forall|j: int| 0 <= j < i ==> !names_move(moves@, text@, j),
        decreases moves.len() - i,
    {
        if *moves[i].notation() == text {
            return Ok(Command::Play(i));
        }
        i = i + 1;
    }
    Err(Error::InvalidMoveInput)
}

/// The quit token alone, or followed by the end of a line as the terminal
/// sends it, is read as the quit token.
pub proof fn lemma_typed_quit_is_quit_token(line: Seq<char>)
    requires
        line == quit_token() || line == quit_token().push('\n') || line == quit_token().push(
            '\r',
        ).push('\n'),
    ensures
        trimmed(line) == quit_token(),
{
    reveal_with_fuel(trim_end, 3);
    assert(trim_start(line) == line);
    if line.len() == 2 {
        assert(line.drop_last() =~= quit_token());
    } else if line.len() == 3 {
        assert(line.drop_last() =~= quit_token().push('\r'));
        assert(line.drop_last().drop_last() =~= quit_token());
    }
}

/// A line has one meaning.
pub proof fn lemma_meaning_is_unique(
    moves: Seq<Move>,
    line: Seq<char>,
    first: Result<Command, Error>,
    second: Result<Command, Error>,
)
    requires
        is_meaning(moves, line, first),
        is_meaning(moves, line, second),
    ensures
        first == second,
{
    let text = trimmed(line);
    if let Ok(Command::Play(i)) = first {
        assert(names_move(moves, text, i as int));
        if let Ok(Command::Play(k)) = second {
            assert(names_move(moves, text, k as int));
        }
    } else if let Ok(Command::Play(k)) = second {
        assert(names_move(moves, text, k as int));
    }
}

} // verus!
