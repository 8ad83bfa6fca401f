use gomoku_policy::policy::Policy;
use gomoku_policy::render::{extremes, flat_levels, glyph, render, FLAT_LEVEL, LEVELS, LINE};

const RAMP: &str = " .:-=+*#%@";

fn policy_of(scores: &[f32]) -> Policy {
    let mut bits = [0u32; 81];
    for (slot, score) in bits.iter_mut().zip(scores.iter()) {
        *slot = score.to_bits();
    }
    Policy { scores: bits }
}

fn ends(scores: &[f32]) -> (f32, f32) {
    let (low, high) = extremes(&policy_of(scores));
    (f32::from_bits(low), f32::from_bits(high))
}

#[test]
fn glyphs_follow_the_ramp() {
    assert_eq!(LEVELS, 10);
    for (level, expected) in RAMP.chars().enumerate() {
        assert_eq!(glyph(level as u8), Some(expected));
    }
    assert_eq!(glyph(0), Some(' '));
    assert_eq!(glyph(9), Some('@'));
}

#[test]
fn there_is_no_glyph_above_the_ramp() {
    assert_eq!(glyph(10), None);
    assert_eq!(glyph(255), None);
}

#[test]
fn darkest_picture_is_blank() {
    let text = render(&vec![0u8; 81]).unwrap();
    let line = format!("{}\n", " ".repeat(18));
    assert_eq!(text, line.repeat(9));
}

#[test]
fn one_level_draws_one_glyph() {
    for level in 0..10u8 {
        let text = render(&vec![level; 81]).unwrap();
        let expected = RAMP.chars().nth(level as usize).unwrap();
        assert_eq!(text.chars().count(), 9 * LINE);
        assert!(text.chars().all(|c| c == expected || c == '\n'));
        assert_eq!(text.chars().filter(|&c| c == '\n').count(), 9);
    }
}

#[test]
fn each_cell_is_drawn_twice_in_its_row() {
    let levels: Vec<u8> = (0..81usize).map(|cell| (cell % 10) as u8).collect();
    let text = render(&levels).unwrap();
    let lines: Vec<&str> = text.lines().collect();
    assert_eq!(lines.len(), 9);
    assert_eq!(lines[0], "  ..::--==++**##%%");
    assert_eq!(lines[1], "@@  ..::--==++**##");
    assert_eq!(lines[8], "::--==++**##%%@@  ");
    let ramp: Vec<char> = RAMP.chars().collect();
    for (row, line) in lines.iter().enumerate() {
        let drawn: Vec<char> = line.chars().collect();
        assert_eq!(drawn.len(), 18);
        for column in 0..9usize {
            let expected = ramp[levels[row * 9 + column] as usize];
            assert_eq!(drawn[2 * column], expected);
            assert_eq!(drawn[2 * column + 1], expected);
        }
    }
    assert!(text.ends_with('\n'));
}

#[test]
fn render_refuses_another_length() {
    assert_eq!(render(&Vec::new()), None);
    assert_eq!(render(&vec![0u8; 80]), None);
    assert_eq!(render(&vec![0u8; 82]), None);
}

#[test]
fn render_refuses_a_level_above_the_ramp() {
    for cell in [0usize, 40, 80] {
        let mut levels = vec![9u8; 81];
        levels[cell] = 10;
        assert_eq!(render(&levels), None);
    }
}

#[test]
fn extremes_of_plain_scores() {
    let scores: Vec<f32> = (0..81).map(|i| (i as f32 - 40.0) / 8.0).collect();
    assert_eq!(ends(&scores), (-5.0, 5.0));
}

#[test]
fn extremes_pass_over_what_is_no_number() {
    let mut scores = vec![f32::NAN; 81];
    scores[10] = 0.25;
    scores[70] = -0.75;
    assert_eq!(ends(&scores), (-0.75, 0.25));
}

#[test]
fn extremes_without_a_number_are_the_infinities() {
    let scores = vec![f32::NAN; 81];
    assert_eq!(ends(&scores), (f32::INFINITY, f32::NEG_INFINITY));
}

#[test]
fn extremes_agree_with_folding_the_numbers() {
    let mut seed: u32 = 99;
    for _ in 0..50 {
        let scores: Vec<f32> = (0..81)
            .map(|_| {
                seed = seed.wrapping_mul(1_664_525).wrapping_add(1_013_904_223);
                f32::from_bits(seed)
            })
            .collect();
        let low = scores.iter().fold(f32::INFINITY, |a, &b| a.min(b));
        let high = scores.iter().fold(f32::NEG_INFINITY, |a, &b| a.max(b));
        assert_eq!(ends(&scores), (low, high));
    }
}

#[test]
fn extremes_may_be_infinite() {
    let mut scores = vec![0.0f32; 81];
    scores[3] = f32::INFINITY;
    scores[4] = f32::NEG_INFINITY;
    assert_eq!(ends(&scores), (f32::NEG_INFINITY, f32::INFINITY));
}

#[test]
fn equal_scores_are_flat() {
    for score in [0.0f32, 1.0 / 81.0, -3.5, f32::MAX, f32::INFINITY] {
        let levels = flat_levels(&policy_of(&vec![score; 81])).unwrap();
        assert_eq!(levels, vec![FLAT_LEVEL; 81]);
    }
}

#[test]
fn equal_scores_draw_one_repeated_glyph() {
    let levels = flat_levels(&policy_of(&vec![0.0123f32; 81])).unwrap();
    let text = render(&levels).unwrap();
    let expected = glyph(FLAT_LEVEL).unwrap();
    assert_eq!(expected, ' ');
    assert_eq!(text.lines().count(), 9);
    for line in text.lines() {
        assert_eq!(line.chars().count(), 18);
        assert!(line.chars().all(|c| c == expected));
    }
}

#[test]
fn the_two_zeros_are_flat() {
    let mut scores = vec![0.0f32; 81];
    scores[5] = -0.0;
    assert!(flat_levels(&policy_of(&scores)).is_some());
}

#[test]
fn equal_numbers_among_what_is_no_number_are_flat() {
    let mut scores = vec![f32::NAN; 81];
    scores[5] = 2.0;
    scores[6] = 2.0;
    assert_eq!(flat_levels(&policy_of(&scores)), Some(vec![FLAT_LEVEL; 81]));
}

#[test]
fn different_scores_are_not_flat() {
    let mut scores = vec![0.5f32; 81];
    scores[80] = 0.5000001;
    assert_eq!(flat_levels(&policy_of(&scores)), None);
}

#[test]
fn scores_without_a_number_are_not_flat() {
    assert_eq!(flat_levels(&policy_of(&vec![f32::NAN; 81])), None);
}

#[test]
fn spread_scores_reach_both_ends_of_the_ramp() {
    let scores: Vec<f32> = (0..81).map(|i| i as f32).collect();
    let policy = policy_of(&scores);
    assert_eq!(flat_levels(&policy), None);
    let (low, high) = extremes(&policy);
    let (low, high) = (f32::from_bits(low), f32::from_bits(high));
    let levels: Vec<u8> =
        scores.iter().map(|&score| ((score - low) / (high - low) * 9.0).round() as u8).collect();
    let text = render(&levels).unwrap();
    assert!(text.starts_with("  "));
    assert!(text.ends_with("@@\n"));
    assert_eq!(levels[40], 5);
    assert_eq!(text.lines().nth(4).unwrap().chars().nth(8), Some('+'));
}
