//! The decorative sequence generator: six symbols drawn by the weighted
//! sampler, with a running repeat count against the last accepted symbol.
//! A draw that would make the count reach exactly two (a third identical
//! symbol in a row) is discarded and redrawn — but the discard keeps the
//! count at two, so the very next draw is accepted even if identical,
//! which is the documented reroll-escape path to an occasional run of
//! three.

use vstd::prelude::*;
use crate::draw::sample;
use crate::symbol::Symbol;

verus! {

/// The repeat count after one draw: one more than before when the drawn
/// symbol equals the last accepted one, else reset to zero.
pub open spec fn spec_step_same(last: Option<Seq<char>>, same: nat, drawn: Seq<char>) -> nat {
    match last {
        Some(l) => if l == drawn {
            same + 1
        } else {
            0
        },
        None => 0,
    }
}

/// Whether the draw is accepted: exactly the draws whose new repeat count
/// is not two.
pub open spec fn spec_step_accept(last: Option<Seq<char>>, same: nat, drawn: Seq<char>) -> bool {
    spec_step_same(last, same, drawn) != 2
}

/// One decision of the sequence generator, on a drawn symbol: whether it
/// is accepted, and the new repeat count. The last accepted symbol is left
/// unchanged by a discard, and a discard happens only when the drawn
/// symbol equals it, so the caller's "last accepted" needs updating only
/// when the count resets to zero.
pub fn decorative_step(last: &Option<Symbol>, same: u64, drawn: &Symbol) -> (r: (bool, u64))
    requires
        same < u64::MAX,
    ensures
        r.1 == spec_step_same(spec_view_of(last), same as nat, drawn@),
        r.0 == spec_step_accept(spec_view_of(last), same as nat, drawn@),
{
    let new_same: u64 = match last {
        Some(l) => if l.same_glyph(drawn) {
            same + 1
        } else {
            0
        },
        None => 0,
    };
    (new_same != 2, new_same)
}

/// Whether a glyph is one of the table's symbols.
pub open spec fn spec_in_table(sym: Seq<char>, table: Seq<Symbol>) -> bool {
    exists|j: int| 0 <= j < table.len() && sym == table[j]@
}

/// The glyph view of an optional symbol.
pub open spec fn spec_view_of(last: &Option<Symbol>) -> Option<Seq<char>> {
    match *last {
        Some(l) => Some(l@),
        None => None,
    }
}

/// A first-pass draw never completes a run of three: when the last two
/// accepted symbols are identical (repeat count one), an identical draw is
/// always discarded. Only the discard path lets one through: the discard
/// leaves the count at two, from where every draw — identical or not — is
/// accepted, so a run of three can arise only immediately after a discard.
pub proof fn lemma_reroll_escape(l: Seq<char>, drawn: Seq<char>)
    ensures
        !spec_step_accept(Some(l), 1, l),
        spec_step_accept(Some(l), 2, drawn),
{
}

/// Draws six decorative symbols from the eight-symbol table (one symbol
/// per tier, in tier order), enforcing the anti-repetition rule above.
/// Every returned symbol is one of the table's. The loop provably
/// terminates: discards are never consecutive, so at most thirteen draws
/// happen. The draws are random, so the run-structure laws are stated
/// over arbitrary draw streams: see `lemma_first_pass_run_free` and
/// `lemma_reroll_escape`.
pub fn generate_decorative(table: &Vec<Symbol>) -> (r: Vec<Symbol>)
    requires
        table@.len() == 8,
    ensures
        r@.len() == 6,
        forall|i: int| 0 <= i < 6 ==> spec_in_table(#[trigger] r@[i]@, table@),
{
    let mut out: Vec<Symbol> = Vec::new();
    let mut last: Option<Symbol> = None;
    let mut same: u64 = 0;
    while out.len() < 6
        invariant
            table@.len() == 8,
            out@.len() <= 6,
            same <= 2 + out@.len(),
            forall|i: int| 0 <= i < out@.len() ==> spec_in_table(#[trigger] out@[i]@, table@),
        decreases 6 - out@.len(), (if same == 1 {
            1int
        } else {
            0int
        }),
    {
        let t = sample();
        let idx = t.index();
        let drawn = table[idx].clone();
        let (accept, new_same) = decorative_step(&last, same, &drawn);
        if new_same == 0 {
            last = Some(drawn.clone());
        }
        same = new_same;
        if accept {
            proof {
                assert(drawn@ == table@[idx as int]@);
                assert(spec_in_table(drawn@, table@));
            }
            out.push(drawn);
        }
    }
    out
}

/// The symbols a draw stream leaves accepted, running the step rule from
/// the given state: an accepted draw is appended (and becomes the last
/// accepted symbol when it differs), a discarded draw leaves the output
/// and the last accepted symbol alone but keeps the count at two.
pub open spec fn spec_accepted(last: Option<Seq<char>>, same: nat, d: Seq<Seq<char>>) -> Seq<
    Seq<char>,
>
    decreases d.len(),
{
    if d.len() == 0 {
        Seq::empty()
    } else {
        let ns = spec_step_same(last, same, d[0]);
        if ns == 2 {
            spec_accepted(last, ns, d.drop_first())
        } else {
            seq![d[0]] + spec_accepted(
                if ns == 0 {
                    Some(d[0])
                } else {
                    last
                },
                ns,
                d.drop_first(),
            )
        }
    }
}

/// How many draws of the stream are discarded along the same run.
pub open spec fn spec_discards(last: Option<Seq<char>>, same: nat, d: Seq<Seq<char>>) -> nat
    decreases d.len(),
{
    if d.len() == 0 {
        0
    } else {
        let ns = spec_step_same(last, same, d[0]);
        if ns == 2 {
            1 + spec_discards(last, ns, d.drop_first())
        } else {
            spec_discards(
                if ns == 0 {
                    Some(d[0])
                } else {
                    last
                },
                ns,
                d.drop_first(),
            )
        }
    }
}

/// Along a discard-free run, the accepted output never holds three
/// identical symbols in a row, and none of the boundary shapes that
/// could complete one against the starting state arise.
proof fn lemma_accepted_run_shape(last: Option<Seq<char>>, same: nat, d: Seq<Seq<char>>)
    requires
        same <= 1,
        spec_discards(last, same, d) == 0,
    ensures
        ({
            let a = spec_accepted(last, same, d);
            &&& forall|i: int|
                0 <= i && i + 2 < a.len() ==> !(#[trigger] a[i] == a[i + 1] && a[i + 1] == a[i
                    + 2])
            &&& (last matches Some(l) ==> {
                &&& (same == 1 ==> (a.len() == 0 || a[0] != l))
                &&& (same == 0 ==> !(a.len() >= 2 && a[0] == l && a[1] == l))
            })
        }),
    decreases d.len(),
{
    if d.len() > 0 {
        let x = d[0];
        let ns = spec_step_same(last, same, x);
        assert(ns != 2);
        let nl = if ns == 0 {
            Some(x)
        } else {
            last
        };
        lemma_accepted_run_shape(nl, ns, d.drop_first());
        let a = spec_accepted(last, same, d);
        let rest = spec_accepted(nl, ns, d.drop_first());
        assert(a == seq![x] + rest);
        assert forall|i: int|
            0 <= i && i + 2 < a.len() implies !(#[trigger] a[i] == a[i + 1] && a[i + 1] == a[i
            + 2]) by {
            if i == 0 {
                assert(a[1] == rest[0] && a[2] == rest[1]);
                if ns == 0 {
                    // A differing (or first) draw: the next two accepted
                    // cannot both repeat it.
                    assert(!(rest.len() >= 2 && rest[0] == x && rest[1] == x));
                } else {
                    // A repeat was accepted from count zero: the next
                    // accepted symbol differs from it.
                    assert(rest.len() == 0 || rest[0] != x);
                }
            } else {
                assert(a[i] == rest[i - 1] && a[i + 1] == rest[i] && a[i + 2] == rest[i + 1]);
            }
        }
    }
}

/// The whole-run form of the reroll-escape law: over any draw stream, a
/// run in which no draw was discarded never shows three identical
/// accepted symbols in a row. A run of three in the decorative sequence
/// therefore comes only through the discard path — never from first-pass
/// draws alone. `decorative_step` implements exactly this step rule, so
/// the law carries over to the generator's loop, whose own draw stream
/// is random rather than a parameter.
pub proof fn lemma_first_pass_run_free(d: Seq<Seq<char>>)
    requires
        spec_discards(None, 0, d) == 0,
    ensures
        forall|i: int|
            0 <= i && i + 2 < spec_accepted(None, 0, d).len() ==> !(#[trigger] spec_accepted(
                None,
                0,
                d,
            )[i] == spec_accepted(None, 0, d)[i + 1] && spec_accepted(None, 0, d)[i + 1]
                == spec_accepted(None, 0, d)[i + 2]),
{
    lemma_accepted_run_shape(None, 0, d);
}

/// The first table symbol whose glyph differs from `l`'s; the table is
/// required to hold at least two distinct glyphs, so one exists.
fn different_symbol(table: &Vec<Symbol>, l: &Symbol) -> (r: Symbol)
    requires
        table@.len() == 8,
        exists|i: int, j: int| 0 <= i < 8 && 0 <= j < 8 && table@[i]@ != table@[j]@,
    ensures
        spec_in_table(r@, table@),
        r@ != l@,
{
    let mut i: usize = 0;
    while i < 8
        invariant
            table@.len() == 8,
            i <= 8,
            forall|j: int| 0 <= j < i ==> #[trigger] table@[j]@ == l@,
        decreases 8 - i,
    {
        if !table[i].same_glyph(l) {
            proof {
                assert(spec_in_table(table@[i as int]@, table@));
            }
            return table[i].clone();
        }
        i = i + 1;
    }
    proof {
        let (a, b) = choose|a: int, b: int| 0 <= a < 8 && 0 <= b < 8 && table@[a]@ != table@[b]@;
        assert(table@[a]@ == l@);
        assert(table@[b]@ == l@);
        assert(false);
    }
    table[0].clone()
}

/// One draw for the strict variant: a symbol from the table that is never
/// a third identical one in a row. A draw that would be is rejected and
/// redrawn a bounded number of times; if every redraw hits the same
/// symbol again, a differing table symbol is substituted, so the cap is
/// hard.
fn draw_non_third(table: &Vec<Symbol>, last: &Option<Symbol>, same: u64) -> (r: Symbol)
    requires
        table@.len() == 8,
        exists|i: int, j: int| 0 <= i < 8 && 0 <= j < 8 && table@[i]@ != table@[j]@,
    ensures
        spec_in_table(r@, table@),
        match spec_view_of(last) {
            Some(l) => same == 1 ==> r@ != l,
            None => true,
        },
{
    let mut attempts: u64 = 16;
    while attempts > 0
        invariant
            table@.len() == 8,
        decreases attempts,
    {
        let t = sample();
        let idx = t.index();
        let drawn = table[idx].clone();
        let reject = match last {
            Some(l) => same == 1 && l.same_glyph(&drawn),
            None => false,
        };
        if !reject {
            proof {
                assert(spec_in_table(table@[idx as int]@, table@));
            }
            return drawn;
        }
        attempts = attempts - 1;
    }
    match last {
        Some(l) => different_symbol(table, l),
        None => table[0].clone(),
    }
}

/// The strict variant of the generator: six symbols with a hard cap of
/// two identical symbols in a row — a run of three never appears. The
/// observed behavior of `generate_decorative` is the default; this is the
/// alternative with the cap enforced outright.
pub fn generate_decorative_strict(table: &Vec<Symbol>) -> (r: Vec<Symbol>)
    requires
        table@.len() == 8,
        exists|i: int, j: int| 0 <= i < 8 && 0 <= j < 8 && table@[i]@ != table@[j]@,
    ensures
        r@.len() == 6,
        forall|i: int| 0 <= i < 6 ==> spec_in_table(#[trigger] r@[i]@, table@),
        forall|i: int|
            0 <= i < 4 ==> !(#[trigger] r@[i]@ == r@[i + 1]@ && r@[i + 1]@ == r@[i + 2]@),
{
    let mut out: Vec<Symbol> = Vec::new();
    let mut last: Option<Symbol> = None;
    let mut same: u64 = 0;
    while out.len() < 6
        invariant
            table@.len() == 8,
            exists|i: int, j: int| 0 <= i < 8 && 0 <= j < 8 && table@[i]@ != table@[j]@,
            out@.len() <= 6,
            same <= 1,
            out@.len() == 0 ==> same == 0 && last is None,
            out@.len() > 0 ==> (last matches Some(l) && l@ == out@[out@.len() - 1]@),
            same == 1 ==> out@.len() >= 2 && out@[out@.len() - 1]@ == out@[out@.len() - 2]@,
            same == 0 && out@.len() >= 2 ==> out@[out@.len() - 1]@ != out@[out@.len() - 2]@,
            forall|i: int| 0 <= i < out@.len() ==> spec_in_table(#[trigger] out@[i]@, table@),
            forall|i: int|
                0 <= i && i + 2 < out@.len() ==> !(#[trigger] out@[i]@ == out@[i + 1]@ && out@[i
                    + 1]@ == out@[i + 2]@),
        decreases 6 - out@.len(),
    {
        let ghost pre_out = out@;
        let ghost pre_same = same;
        let sym = draw_non_third(table, &last, same);
        let ghost gsym = sym@;
        let equal = match &last {
            Some(l) => l.same_glyph(&sym),
            None => false,
        };
        proof {
            if equal {
                assert(pre_same == 0);
            }
        }
        if equal {
            same = same + 1;
        } else {
            same = 0;
            last = Some(sym.clone());
        }
        out.push(sym);
        proof {
            let ghost n = pre_out.len() as int;
            assert forall|i: int| 0 <= i && i + 2 < out@.len() implies !(#[trigger] out@[i]@
                == out@[i + 1]@ && out@[i + 1]@ == out@[i + 2]@) by {
                if i + 2 < n {
                    assert(!(pre_out[i]@ == pre_out[i + 1]@ && pre_out[i + 1]@ == pre_out[i
                        + 2]@));
                } else {
                    // The new symbol sits at index i + 2 == n.
                    if equal {
                        // A repeat was accepted, so the count was zero: the
                        // two preceding symbols differ.
                        assert(pre_out[n - 1]@ != pre_out[n - 2]@);
                    } else {
                        // A differing symbol was accepted.
                        assert(gsym != pre_out[n - 1]@);
                    }
                }
            }
        }
    }
    out
}

} // verus!
