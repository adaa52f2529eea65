//! The 3x3 grid layout: the winning row repeated three times, placed at
//! the declared winning row index, with the six decorative symbols filling
//! the other two rows, consumed in reverse generation order (the
//! last-generated symbol is rendered first).

use vstd::prelude::*;
use crate::symbol::Symbol;

verus! {

/// One rendered grid row: `|a|b|c|` and a line break.
pub open spec fn spec_row3(a: Seq<char>, b: Seq<char>, c: Seq<char>) -> Seq<char> {
    seq!['|'] + a + seq!['|'] + b + seq!['|'] + c + seq!['|', '\n']
}

/// The winning row: the winning symbol three times.
pub open spec fn spec_win_row(w: Seq<char>) -> Seq<char> {
    spec_row3(w, w, w)
}

/// The first decorative row: the last three generated symbols, newest
/// first.
pub open spec fn spec_deco_row_hi(d: Seq<Seq<char>>) -> Seq<char> {
    spec_row3(d[5], d[4], d[3])
}

/// The second decorative row: the first three generated symbols, newest
/// first.
pub open spec fn spec_deco_row_lo(d: Seq<Seq<char>>) -> Seq<char> {
    spec_row3(d[2], d[1], d[0])
}

/// The three rendered lines, with the winning row at index `row`.
pub open spec fn spec_grid_lines(w: Seq<char>, d: Seq<Seq<char>>, row: int) -> Seq<Seq<char>> {
    if row == 0 {
        seq![spec_win_row(w), spec_deco_row_hi(d), spec_deco_row_lo(d)]
    } else if row == 1 {
        seq![spec_deco_row_hi(d), spec_win_row(w), spec_deco_row_lo(d)]
    } else {
        seq![spec_deco_row_hi(d), spec_deco_row_lo(d), spec_win_row(w)]
    }
}

/// The whole rendered grid: the three lines, top to bottom.
pub open spec fn spec_layout(w: Seq<char>, d: Seq<Seq<char>>, row: int) -> Seq<char> {
    spec_grid_lines(w, d, row)[0] + spec_grid_lines(w, d, row)[1] + spec_grid_lines(w, d, row)[2]
}

/// The winning row always stands as the `(row + 1)`-th of the three
/// rendered lines, whatever the decorative symbols are.
pub proof fn lemma_winning_row_position(w: Seq<char>, d: Seq<Seq<char>>, row: int)
    requires
        0 <= row < 3,
    ensures
        spec_grid_lines(w, d, row).len() == 3,
        spec_grid_lines(w, d, row)[row] == spec_win_row(w),
{
}

/// Appends `|a|b|c|` and a line break.
fn push_row3(s: &mut String, a: &Symbol, b: &Symbol, c: &Symbol)
    ensures
        final(s)@ == old(s)@ + spec_row3(a@, b@, c@),
{
    proof {
        reveal_strlit("|");
        reveal_strlit("|\n");
    }
    s.append("|");
    s.append(a.glyph.as_str());
    s.append("|");
    s.append(b.glyph.as_str());
    s.append("|");
    s.append(c.glyph.as_str());
    s.append("|\n");
    proof {
        assert(final(s)@ =~= old(s)@ + spec_row3(a@, b@, c@));
    }
}

/// Renders the grid for the given winning symbol, decorative sequence (in
/// generation order) and winning row index.
pub fn layout(winning: &Symbol, decorative: &Vec<Symbol>, row: u8) -> (r: String)
    requires
        decorative@.len() == 6,
        row < 3,
    ensures
        r@ == spec_layout(winning@, decorative@.map_values(|s: Symbol| s@), row as int),
{
    let ghost d = decorative@.map_values(|s: Symbol| s@);
    let mut out = String::new();
    if row == 0 {
        push_row3(&mut out, winning, winning, winning);
        push_row3(&mut out, &decorative[5], &decorative[4], &decorative[3]);
        push_row3(&mut out, &decorative[2], &decorative[1], &decorative[0]);
    } else if row == 1 {
        push_row3(&mut out, &decorative[5], &decorative[4], &decorative[3]);
        push_row3(&mut out, winning, winning, winning);
        push_row3(&mut out, &decorative[2], &decorative[1], &decorative[0]);
    } else {
        push_row3(&mut out, &decorative[5], &decorative[4], &decorative[3]);
        push_row3(&mut out, &decorative[2], &decorative[1], &decorative[0]);
        push_row3(&mut out, winning, winning, winning);
    }
    proof {
        assert(out@ =~= spec_layout(winning@, d, row as int));
    }
    out
}

} // verus!
