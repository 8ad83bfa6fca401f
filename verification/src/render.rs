//! The policy as a picture: nine lines of text, one for each row of the
//! board, in which each cell is drawn twice with a glyph that is the denser
//! the brighter the cell.

use vstd::prelude::*;
use vstd::string::*;
use crate::board::{CELLS, SIDE};
use crate::policy::Policy;
use crate::score::{greater, is_nan, key, order_key, INFINITE, NEGATIVE_INFINITE};

verus! {

/// How many brightness levels there are.
pub const LEVELS: u8 = 10;

/// Characters in one line of the picture: two for each cell and the line
/// feed.
pub const LINE: usize = 19;

/// The level at which a policy is drawn whose scores are all equal. Such a
/// policy has no range to spread over the levels.
pub const FLAT_LEVEL: u8 = 0;

/// The glyphs, from the darkest level to the brightest.
pub open spec fn ramp() -> Seq<char> {
    seq![' ', '.', ':', '-', '=', '+', '*', '#', '%', '@']
}

/// Whether `levels` gives each cell of the board a brightness level.
pub open spec fn is_brightness(levels: Seq<u8>) -> bool {
    &&& levels.len() == CELLS
    &&& forall|i: int| 0 <= i < CELLS ==> levels[i] < LEVELS
}

/// Character `k` of the picture: the line feed at the end of each line, else
/// the glyph of the cell whose column is half the position in the line.
pub open spec fn picture_char(levels: Seq<u8>, k: int) -> char {
    if k % (LINE as int) == LINE - 1 {
        '\n'
    } else {
        ramp()[levels[(k / (LINE as int)) * SIDE + (k % (LINE as int)) / 2] as int]
    }
}

/// The picture of `levels`.
pub open spec fn picture(levels: Seq<u8>) -> Seq<char> {
    Seq::new((SIDE * LINE) as nat, |k: int| picture_char(levels, k))
}

/// The glyph of a brightness level; `None` for a level that does not exist.
pub fn glyph(level: u8) -> (c: Option<char>)
    ensures
        c == if level < LEVELS {
            Some(ramp()[level as int])
        } else {
            None
        },
{
    let glyphs = " .:-=+*#%@";
    proof {
        reveal_strlit(" .:-=+*#%@");
        assert(glyphs@ =~= ramp());
    }
    if level < LEVELS {
        Some(glyphs.get_char(level as usize))
    } else {
        None
    }
}

/// Draws the brightness levels of the eighty-one cells. `None` where
/// `levels` is not one level below ten for each cell.
pub fn render(levels: &Vec<u8>) -> (drawn: Option<String>)
    ensures
        drawn is Some <==> is_brightness(levels@),
        drawn matches Some(text) ==> text@ == picture(levels@),
{
    if levels.len() != CELLS {
        return None;
    }
    let glyphs = " .:-=+*#%@";
    proof {
        reveal_strlit(" .:-=+*#%@");
        reveal_strlit("\n");
        assert(glyphs@ =~= ramp());
    }
    let mut text = String::new();
    let mut row: usize = 0;
    while row < SIDE
        invariant
            row <= SIDE,
            levels@.len() == CELLS,
            glyphs@ == ramp(),
            glyphs.is_ascii(),
            "\n"@ == seq!['\n'],
            forall|i: int| 0 <= i < row * SIDE ==> levels@[i] < LEVELS,
            text@.len() == row * LINE,
            forall|k: int| 0 <= k < row * LINE ==> text@[k] == picture_char(levels@, k),
        decreases SIDE - row,
    {
        let mut column: usize = 0;
        while column < SIDE
            invariant
                row < SIDE,
                column <= SIDE,
                levels@.len() == CELLS,
                glyphs@ == ramp(),
                glyphs.is_ascii(),
                forall|i: int| 0 <= i < row * SIDE + column ==> levels@[i] < LEVELS,
                text@.len() == row * LINE + 2 * column,
                forall|k: int|
                    0 <= k < row * LINE + 2 * column ==> text@[k] == picture_char(levels@, k),
            decreases SIDE - column,
        {
            let level: u8 = levels[row * SIDE + column];
            if level >= LEVELS {
                return None;
            }
            let at: usize = level as usize;
            let one = glyphs.substring_ascii(at, at + 1);
            let ghost before = text@;
            text.append(one);
            text.append(one);
            proof {
                let base = row * LINE + 2 * column;
                assert(one@ =~= seq![ramp()[level as int]]);
                assert(text@ =~= before + one@ + one@);
                assert(picture_char(levels@, base) == ramp()[level as int]);
                assert(picture_char(levels@, base + 1) == ramp()[level as int]);
            }
            column = column + 1;
        }
        let ghost before = text@;
        text.append("\n");
        proof {
            assert(text@ =~= before + seq!['\n']);
            assert(picture_char(levels@, row * LINE + 18) == '\n');
        }
        row = row + 1;
    }
    assert(text@ =~= picture(levels@));
    Some(text)
}

/// Whether position `i` holds the first of the least numbers among `scores`.
pub open spec fn is_first_least(scores: Seq<u32>, i: int) -> bool {
    &&& 0 <= i < scores.len()
    &&& !is_nan(scores[i])
    &&& forall|j: int|
        0 <= j < scores.len() && !is_nan(#[trigger] scores[j]) ==> order_key(scores[i])
            <= order_key(scores[j])
    &&& forall|j: int|
        0 <= j < i && !is_nan(#[trigger] scores[j]) ==> order_key(scores[i]) < order_key(scores[j])
}

/// Whether position `i` holds the first of the greatest numbers among
/// `scores`.
pub open spec fn is_first_greatest(scores: Seq<u32>, i: int) -> bool {
    &&& 0 <= i < scores.len()
    &&& !is_nan(scores[i])
    &&& forall|j: int|
        0 <= j < scores.len() && !is_nan(#[trigger] scores[j]) ==> order_key(scores[j])
            <= order_key(scores[i])
    &&& forall|j: int|
        0 <= j < i && !is_nan(#[trigger] scores[j]) ==> order_key(scores[j]) < order_key(scores[i])
}

/// Whether `low` is the least of `scores`: the first of the least numbers
/// among them, and positive infinity where none of them is a number.
pub open spec fn is_least(scores: Seq<u32>, low: u32) -> bool {
    if forall|j: int| 0 <= j < scores.len() ==> is_nan(#[trigger] scores[j]) {
        low == INFINITE
    } else {
        exists|i: int| is_first_least(scores, i) && low == scores[i]
    }
}

/// Whether `high` is the greatest of `scores`: the first of the greatest
/// numbers among them, and negative infinity where none of them is a number.
pub open spec fn is_greatest(scores: Seq<u32>, high: u32) -> bool {
    if forall|j: int| 0 <= j < scores.len() ==> is_nan(#[trigger] scores[j]) {
        high == NEGATIVE_INFINITE
    } else {
        exists|i: int| is_first_greatest(scores, i) && high == scores[i]
    }
}

/// The least and the greatest score of a policy, between which its scores
/// are spread over the brightness levels. Scores that are not numbers are
/// passed over.
pub fn extremes(policy: &Policy) -> (ends: (u32, u32))
    ensures
        is_least(policy@, ends.0),
        is_greatest(policy@, ends.1),
{
    let mut low: u32 = INFINITE;
    let mut high: u32 = NEGATIVE_INFINITE;
    let mut i: usize = 0;
    while i < CELLS
        invariant
            i <= CELLS,
            is_least(policy@.take(i as int), low),
            is_greatest(policy@.take(i as int), high),
        decreases CELLS - i,
    {
        let score: u32 = policy.scores[i];
        let ghost before = policy@.take(i as int);
        let ghost after = policy@.take(i as int + 1);
        assert(forall|j: int| 0 <= j < i ==> before[j] == after[j]);
        assert(after[i as int] == score);
        if greater(low, score) {
            low = score;
            assert(is_first_least(after, i as int));
        } else {
            proof {
                if exists|j: int| 0 <= j < after.len() && !is_nan(#[trigger] after[j]) {
                    if forall|j: int| 0 <= j < before.len() ==> is_nan(#[trigger] before[j]) {
                        assert(!is_nan(after[i as int]));
                        assert(is_first_least(after, i as int));
                    } else {
                        let k = choose|k: int| is_first_least(before, k) && low == before[k];
                        assert(is_first_least(after, k));
                    }
                }
            }
        }
        if greater(score, high) {
            high = score;
            assert(is_first_greatest(after, i as int));
        } else {
            proof {
                if exists|j: int| 0 <= j < after.len() && !is_nan(#[trigger] after[j]) {
                    if forall|j: int| 0 <= j < before.len() ==> is_nan(#[trigger] before[j]) {
                        assert(!is_nan(after[i as int]));
                        assert(is_first_greatest(after, i as int));
                    } else {
                        let k = choose|k: int| is_first_greatest(before, k) && high == before[k];
                        assert(is_first_greatest(after, k));
                    }
                }
            }
        }
        i = i + 1;
    }
    assert(policy@.take(i as int) =~= policy@);
    (low, high)
}

/// Whether the scores leave nothing to tell apart: some score is a number and
/// all those that are numbers are equal.
pub open spec fn is_flat(scores: Seq<u32>) -> bool {
    exists|i: int|
        {
            &&& 0 <= i < scores.len()
            &&& !is_nan(#[trigger] scores[i])
            &&& forall|j: int|
                0 <= j < scores.len() && !is_nan(#[trigger] scores[j]) ==> order_key(scores[j])
                    == order_key(scores[i])
        }
}

/// The levels at which every cell is drawn where the scores are flat.
pub open spec fn flat_picture_levels() -> Seq<u8> {
    Seq::new(CELLS as nat, |i: int| FLAT_LEVEL)
}

/// The brightness levels of a policy whose scores are flat: every cell at
/// `FLAT_LEVEL`. `None` for any other policy, whose levels come from
/// spreading its scores between its extremes.
pub fn flat_levels(policy: &Policy) -> (levels: Option<Vec<u8>>)
    ensures
        levels is Some <==> is_flat(policy@),
        levels matches Some(all) ==> all@ == flat_picture_levels(),
{
    let (low, high) = extremes(policy);
    proof {
        let scores = policy@;
        if forall|j: int| 0 <= j < scores.len() ==> is_nan(#[trigger] scores[j]) {
            assert(order_key(low) != order_key(high));
            assert(!is_flat(scores));
        } else {
            let a = choose|a: int| is_first_least(scores, a) && low == scores[a];
            let b = choose|b: int| is_first_greatest(scores, b) && high == scores[b];
            if order_key(low) == order_key(high) {
                assert(!is_nan(scores[a]));
                assert forall|j: int|
                    0 <= j < scores.len() && !is_nan(#[trigger] scores[j]) implies order_key(
                    scores[j],
                ) == order_key(scores[a]) by {}
                assert(is_flat(scores));
            } else if is_flat(scores) {
                let i = choose|i: int|
                    {
                        &&& 0 <= i < scores.len()
                        &&& !is_nan(#[trigger] scores[i])
                        &&& forall|j: int|
                            0 <= j < scores.len() && !is_nan(#[trigger] scores[j]) ==> order_key(
                                scores[j],
                            ) == order_key(scores[i])
                    };
                assert(order_key(scores[a]) == order_key(scores[i]));
                assert(order_key(scores[b]) == order_key(scores[i]));
            }
        }
    }
    if key(low) != key(high) {
        return None;
    }
    let mut all: Vec<u8> = Vec::new();
    let mut i: usize = 0;
    while i < CELLS
        invariant
            i <= CELLS,
            all@.len() == i,
            forall|k: int| 0 <= k < i ==> all@[k] == FLAT_LEVEL,
        decreases CELLS - i,
    {
        all.push(FLAT_LEVEL);
        i = i + 1;
    }
    assert(all@ =~= flat_picture_levels());
    Some(all)
}

/// Where every cell has the same level, the picture shows one glyph and
/// nothing else but the line feeds.
pub proof fn lemma_flat_levels_draw_one_glyph(levels: Seq<u8>, level: u8)
    requires
        is_brightness(levels),
        forall|i: int| 0 <= i < CELLS ==> levels[i] == level,
    ensures
        forall|k: int|
            0 <= k < SIDE * LINE ==> #[trigger] picture(levels)[k] == if k % (LINE as int) == LINE
                - 1 {
                '\n'
            } else {
                ramp()[level as int]
            },
{
    assert forall|k: int| 0 <= k < SIDE * LINE implies #[trigger] picture(levels)[k] == if k % (
    LINE as int) == LINE - 1 {
        '\n'
    } else {
        ramp()[level as int]
    } by {
        if k % (LINE as int) != LINE - 1 {
            let cell = (k / (LINE as int)) * SIDE + (k % (LINE as int)) / 2;
            assert(0 <= cell < CELLS);
        }
    }
}

/// A policy whose scores are all the same number is drawn as one glyph,
/// repeated, and the line feeds: no division by its empty range takes place.
pub proof fn lemma_equal_scores_draw_one_glyph(scores: Seq<u32>)
    requires
        scores.len() == CELLS,
        forall|i: int| 0 <= i < CELLS ==> !is_nan(#[trigger] scores[i]),
        forall|i: int| 0 <= i < CELLS ==> order_key(#[trigger] scores[i]) == order_key(scores[0]),
    ensures
        is_flat(scores),
        is_brightness(flat_picture_levels()),
        forall|k: int|
            0 <= k < SIDE * LINE ==> #[trigger] picture(flat_picture_levels())[k] == if k % (
            LINE as int) == LINE - 1 {
                '\n'
            } else {
                ramp()[FLAT_LEVEL as int]
            },
{
    assert(!is_nan(scores[0]));
    lemma_flat_levels_draw_one_glyph(flat_picture_levels(), FLAT_LEVEL);
}

} // verus!
