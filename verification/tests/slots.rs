use slot_ledger::decorative::{decorative_step, generate_decorative, generate_decorative_strict};
use slot_ledger::digits::u64_to_string;
use slot_ledger::draw::{draw_row, sample};
use slot_ledger::grid::layout;
use slot_ledger::symbol::Symbol;
use slot_ledger::tier::{tier_from_draw, RewardTier, TOTAL_WEIGHT};

fn sym(s: &str) -> Symbol {
    Symbol::new(String::from(s))
}

fn tiers() -> [RewardTier; 8] {
    [
        RewardTier::VeryCommon,
        RewardTier::Common,
        RewardTier::Uncommon,
        RewardTier::Rare,
        RewardTier::VeryRare,
        RewardTier::Epic,
        RewardTier::Legendary,
        RewardTier::Jackpot,
    ]
}

#[test]
fn tier_weights_exact() {
    let expected: [u64; 8] = [100, 95, 75, 60, 50, 30, 10, 1];
    for (t, w) in tiers().iter().zip(expected.iter()) {
        assert_eq!(t.weight(), *w);
    }
    let total: u64 = expected.iter().sum();
    assert_eq!(total, TOTAL_WEIGHT);
    assert_eq!(TOTAL_WEIGHT, 421);
}

#[test]
fn tier_payouts_exact() {
    let expected: [u64; 8] = [0, 25, 100, 250, 500, 1000, 2500, 5000];
    for (t, p) in tiers().iter().zip(expected.iter()) {
        assert_eq!(t.payout(), *p);
    }
}

#[test]
fn tier_from_draw_boundaries() {
    assert_eq!(tier_from_draw(0), RewardTier::VeryCommon);
    assert_eq!(tier_from_draw(99), RewardTier::VeryCommon);
    assert_eq!(tier_from_draw(100), RewardTier::Common);
    assert_eq!(tier_from_draw(194), RewardTier::Common);
    assert_eq!(tier_from_draw(195), RewardTier::Uncommon);
    assert_eq!(tier_from_draw(269), RewardTier::Uncommon);
    assert_eq!(tier_from_draw(270), RewardTier::Rare);
    assert_eq!(tier_from_draw(329), RewardTier::Rare);
    assert_eq!(tier_from_draw(330), RewardTier::VeryRare);
    assert_eq!(tier_from_draw(379), RewardTier::VeryRare);
    assert_eq!(tier_from_draw(380), RewardTier::Epic);
    assert_eq!(tier_from_draw(409), RewardTier::Epic);
    assert_eq!(tier_from_draw(410), RewardTier::Legendary);
    assert_eq!(tier_from_draw(419), RewardTier::Legendary);
    assert_eq!(tier_from_draw(420), RewardTier::Jackpot);
}

#[test]
fn tier_draw_preimage_matches_weight() {
    // Under a uniform draw, each tier's share of the 421 outcomes is
    // exactly its declared weight.
    let mut counts: [u64; 8] = [0; 8];
    let mut d: u64 = 0;
    while d < TOTAL_WEIGHT {
        counts[tier_from_draw(d).index()] += 1;
        d += 1;
    }
    let expected: [u64; 8] = [100, 95, 75, 60, 50, 30, 10, 1];
    assert_eq!(counts, expected);
}

#[test]
fn sample_frequencies_roughly_proportional() {
    // A loose statistical check on the sampler itself; the exact
    // weight-to-draw mapping is covered deterministically above.
    let n: u64 = 42100;
    let mut counts: [u64; 8] = [0; 8];
    for _ in 0..n {
        counts[sample().index()] += 1;
    }
    let expected: [u64; 8] = [10000, 9500, 7500, 6000, 5000, 3000, 1000, 100];
    for i in 0..8 {
        assert!(counts[i] * 2 > expected[i], "tier {} badly under-drawn: {}", i, counts[i]);
        assert!(counts[i] < expected[i] * 2, "tier {} badly over-drawn: {}", i, counts[i]);
    }
}

#[test]
fn winning_row_in_range() {
    for _ in 0..1000 {
        assert!(draw_row() < 3);
    }
}

#[test]
fn decorative_step_rejects_first_pass_triple() {
    // Two identical symbols accepted in a row (count 1): an identical
    // draw would be the third and is discarded.
    let a = sym("A");
    let last = Some(sym("A"));
    let (accept, same) = decorative_step(&last, 1, &a);
    assert!(!accept);
    assert_eq!(same, 2);
}

#[test]
fn decorative_step_escape_allows_triple() {
    // After the discard the count stays at two, so the very next
    // identical draw steps past two and is accepted: a run of three.
    let a = sym("A");
    let last = Some(sym("A"));
    let (accept, same) = decorative_step(&last, 2, &a);
    assert!(accept);
    assert_eq!(same, 3);
}

#[test]
fn decorative_step_resets_on_new_symbol() {
    let last = Some(sym("A"));
    let b = sym("B");
    let (accept, same) = decorative_step(&last, 2, &b);
    assert!(accept);
    assert_eq!(same, 0);
}

#[test]
fn decorative_step_fresh_start() {
    let last: Option<Symbol> = None;
    let a = sym("A");
    let (accept, same) = decorative_step(&last, 0, &a);
    assert!(accept);
    assert_eq!(same, 0);
}

#[test]
fn generate_decorative_six_from_table() {
    let table: Vec<Symbol> =
        ["a", "b", "c", "d", "e", "f", "g", "h"].iter().map(|s| sym(s)).collect();
    for _ in 0..200 {
        let out = generate_decorative(&table);
        assert_eq!(out.len(), 6);
        for s in out.iter() {
            assert!(table.iter().any(|t| t.glyph == s.glyph));
        }
    }
}

#[test]
fn strict_generator_never_runs_three() {
    let table: Vec<Symbol> =
        ["a", "b", "c", "d", "e", "f", "g", "h"].iter().map(|s| sym(s)).collect();
    for _ in 0..500 {
        let out = generate_decorative_strict(&table);
        assert_eq!(out.len(), 6);
        for w in out.windows(3) {
            assert!(
                !(w[0].glyph == w[1].glyph && w[1].glyph == w[2].glyph),
                "strict variant produced a run of three"
            );
        }
        for s in out.iter() {
            assert!(table.iter().any(|t| t.glyph == s.glyph));
        }
    }
}

#[test]
fn layout_row0_example() {
    let w = sym("A");
    let deco: Vec<Symbol> = ["B", "C", "D", "E", "F", "G"].iter().map(|s| sym(s)).collect();
    let text = layout(&w, &deco, 0);
    assert_eq!(text, "|A|A|A|\n|G|F|E|\n|D|C|B|\n");
    assert_eq!(text.lines().next().unwrap(), "|A|A|A|");
}

#[test]
fn layout_winning_row_position() {
    // The winning row is always the (row + 1)-th rendered line.
    let w = sym("A");
    let deco: Vec<Symbol> = ["B", "C", "D", "E", "F", "G"].iter().map(|s| sym(s)).collect();
    for row in 0..3u8 {
        let text = layout(&w, &deco, row);
        let lines: Vec<&str> = text.lines().collect();
        assert_eq!(lines.len(), 3);
        assert_eq!(lines[row as usize], "|A|A|A|");
    }
}

#[test]
fn layout_row1_and_row2() {
    let w = sym("A");
    let deco: Vec<Symbol> = ["B", "C", "D", "E", "F", "G"].iter().map(|s| sym(s)).collect();
    assert_eq!(layout(&w, &deco, 1), "|G|F|E|\n|A|A|A|\n|D|C|B|\n");
    assert_eq!(layout(&w, &deco, 2), "|G|F|E|\n|D|C|B|\n|A|A|A|\n");
}

#[test]
fn decimal_string_examples() {
    assert_eq!(u64_to_string(0), "0");
    assert_eq!(u64_to_string(7), "7");
    assert_eq!(u64_to_string(12345), "12345");
    assert_eq!(u64_to_string(u64::MAX), "18446744073709551615");
}
