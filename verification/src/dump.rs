//! The flat dump format of a ledger store: the store's identifier line,
//! its tag line, then one `key,value` line per pair, all newline-ended.
//! The renderer and the parser are both exact, and rendering then parsing
//! is proved to recover the identifier, the tag and every pair.

use vstd::prelude::*;
use crate::digits::{
    acc_digit, lemma_dec_bytes_digits, lemma_dec_val_nonneg, lemma_dec_val_of_dec_bytes,
    push_decimal_bytes, spec_all_digits, spec_dec_bytes, spec_dec_val, spec_is_digit,
};

verus! {

/// The line separator byte.
pub const NL: u8 = 10;

/// The key/value separator byte.
pub const COMMA: u8 = 44;

/// One rendered pair line: the key and value in decimal, separated by a
/// comma, ended by a newline.
pub open spec fn spec_render_line(p: (u64, u64)) -> Seq<u8> {
    spec_dec_bytes(p.0 as nat) + seq![COMMA] + spec_dec_bytes(p.1 as nat) + seq![NL]
}

/// The rendered pair lines, in order.
pub open spec fn spec_render_lines(ps: Seq<(u64, u64)>) -> Seq<u8>
    decreases ps.len(),
{
    if ps.len() == 0 {
        Seq::empty()
    } else {
        spec_render_line(ps[0]) + spec_render_lines(ps.drop_first())
    }
}

/// The whole dump: identifier line, tag line, pair lines.
pub open spec fn spec_render_dump(id: Seq<u8>, tag: Seq<u8>, ps: Seq<(u64, u64)>) -> Seq<u8> {
    id + seq![NL] + tag + seq![NL] + spec_render_lines(ps)
}

/// Appending a pair appends its line.
pub proof fn lemma_render_lines_snoc(ps: Seq<(u64, u64)>, p: (u64, u64))
    ensures
        spec_render_lines(ps.push(p)) == spec_render_lines(ps) + spec_render_line(p),
    decreases ps.len(),
{
    if ps.len() == 0 {
        assert(ps.push(p).drop_first() =~= Seq::<(u64, u64)>::empty());
        assert(ps.push(p)[0] == p);
        assert(spec_render_lines(ps.push(p)) == spec_render_line(p) + spec_render_lines(
            ps.push(p).drop_first(),
        ));
        assert(spec_render_lines(ps.push(p).drop_first()).len() == 0);
        assert(spec_render_lines(ps).len() == 0);
        assert(spec_render_lines(ps.push(p)) =~= spec_render_lines(ps) + spec_render_line(p));
    } else {
        lemma_render_lines_snoc(ps.drop_first(), p);
        assert(ps.push(p).drop_first() =~= ps.drop_first().push(p));
        assert(ps.push(p)[0] == ps[0]);
        assert(spec_render_lines(ps.push(p)) =~= spec_render_lines(ps) + spec_render_line(p));
    }
}

/// Renders the dump of a store's pairs under the given identifier and tag.
pub fn render_dump(id: &Vec<u8>, tag: &Vec<u8>, pairs: &Vec<(u64, u64)>) -> (r: Vec<u8>)
    ensures
        r@ == spec_render_dump(id@, tag@, pairs@),
{
    let mut out: Vec<u8> = Vec::new();
    out.extend_from_slice(id.as_slice());
    out.push(NL);
    out.extend_from_slice(tag.as_slice());
    out.push(NL);
    proof {
        assert(out@ =~= id@ + seq![NL] + tag@ + seq![NL]);
    }
    let mut i: usize = 0;
    while i < pairs.len()
        invariant
            i <= pairs@.len(),
            out@ == id@ + seq![NL] + tag@ + seq![NL] + spec_render_lines(
                pairs@.subrange(0, i as int),
            ),
        decreases pairs@.len() - i,
    {
        let (k, v) = pairs[i];
        push_decimal_bytes(&mut out, k);
        out.push(COMMA);
        push_decimal_bytes(&mut out, v);
        out.push(NL);
        proof {
            lemma_render_lines_snoc(pairs@.subrange(0, i as int), pairs@[i as int]);
            assert(pairs@.subrange(0, i as int + 1) =~= pairs@.subrange(0, i as int).push(
                pairs@[i as int],
            ));
            assert(out@ =~= id@ + seq![NL] + tag@ + seq![NL] + spec_render_lines(
                pairs@.subrange(0, i as int + 1),
            ));
        }
        i = i + 1;
    }
    proof {
        assert(pairs@.subrange(0, pairs@.len() as int) =~= pairs@);
    }
    out
}

/// The parser's mode: reading the identifier line, the tag line, a key,
/// a value, or failed.
#[derive(Clone, Copy, PartialEq, Eq, Structural)]
pub enum SmMode {
    Ident,
    Tag,
    Key,
    Val,
    Failed,
}

/// The parser's state: current mode, the finished identifier, tag and
/// pairs, the key of the line in progress, and the bytes of the token in
/// progress.
pub struct SmSt {
    pub mode: SmMode,
    pub id: Seq<u8>,
    pub tag: Seq<u8>,
    pub pairs: Seq<(u64, u64)>,
    pub key: u64,
    pub cur: Seq<u8>,
}

pub open spec fn spec_sm_init() -> SmSt {
    SmSt {
        mode: SmMode::Ident,
        id: Seq::empty(),
        tag: Seq::empty(),
        pairs: Seq::empty(),
        key: 0,
        cur: Seq::empty(),
    }
}

/// One byte of the dump parser: lines accumulate into `cur` until their
/// separator; a key or value token must be a nonempty run of digits whose
/// value fits a counter, else the parse fails.
pub open spec fn spec_sm_step(st: SmSt, b: u8) -> SmSt {
    match st.mode {
        SmMode::Ident => if b == NL {
            SmSt { mode: SmMode::Tag, id: st.cur, tag: st.tag, pairs: st.pairs, key: st.key, cur: Seq::empty() }
        } else {
            SmSt { mode: st.mode, id: st.id, tag: st.tag, pairs: st.pairs, key: st.key, cur: st.cur.push(b) }
        },
        SmMode::Tag => if b == NL {
            SmSt { mode: SmMode::Key, id: st.id, tag: st.cur, pairs: st.pairs, key: st.key, cur: Seq::empty() }
        } else {
            SmSt { mode: st.mode, id: st.id, tag: st.tag, pairs: st.pairs, key: st.key, cur: st.cur.push(b) }
        },
        SmMode::Key => if spec_is_digit(b) {
            SmSt { mode: st.mode, id: st.id, tag: st.tag, pairs: st.pairs, key: st.key, cur: st.cur.push(b) }
        } else if b == COMMA && st.cur.len() > 0 && 0 <= spec_dec_val(st.cur) <= u64::MAX {
            SmSt {
                mode: SmMode::Val,
                id: st.id,
                tag: st.tag,
                pairs: st.pairs,
                key: spec_dec_val(st.cur) as u64,
                cur: Seq::empty(),
            }
        } else {
            SmSt { mode: SmMode::Failed, id: st.id, tag: st.tag, pairs: st.pairs, key: st.key, cur: st.cur }
        },
        SmMode::Val => if spec_is_digit(b) {
            SmSt { mode: st.mode, id: st.id, tag: st.tag, pairs: st.pairs, key: st.key, cur: st.cur.push(b) }
        } else if b == NL && st.cur.len() > 0 && 0 <= spec_dec_val(st.cur) <= u64::MAX {
            SmSt {
                mode: SmMode::Key,
                id: st.id,
                tag: st.tag,
                pairs: st.pairs.push((st.key, spec_dec_val(st.cur) as u64)),
                key: st.key,
                cur: Seq::empty(),
            }
        } else {
            SmSt { mode: SmMode::Failed, id: st.id, tag: st.tag, pairs: st.pairs, key: st.key, cur: st.cur }
        },
        SmMode::Failed => st,
    }
}

/// The parser run over a byte sequence.
pub open spec fn spec_sm_run(s: Seq<u8>, st: SmSt) -> SmSt
    decreases s.len(),
{
    if s.len() == 0 {
        st
    } else {
        spec_sm_run(s.drop_first(), spec_sm_step(st, s[0]))
    }
}

/// What parsing a dump yields: the identifier, tag and pairs, exactly
/// when the run ends at a line boundary after a well-formed header.
pub open spec fn spec_parse_dump(s: Seq<u8>) -> Option<(Seq<u8>, Seq<u8>, Seq<(u64, u64)>)> {
    let f = spec_sm_run(s, spec_sm_init());
    if f.mode == SmMode::Key && f.cur.len() == 0 {
        Some((f.id, f.tag, f.pairs))
    } else {
        None
    }
}

/// Running over a concatenation is running over each part in turn.
pub proof fn lemma_sm_run_concat(a: Seq<u8>, b: Seq<u8>, st: SmSt)
    ensures
        spec_sm_run(a + b, st) == spec_sm_run(b, spec_sm_run(a, st)),
    decreases a.len(),
{
    if a.len() == 0 {
        assert(a + b =~= b);
    } else {
        lemma_sm_run_concat(a.drop_first(), b, spec_sm_step(st, a[0]));
        assert((a + b).drop_first() =~= a.drop_first() + b);
        assert((a + b)[0] == a[0]);
    }
}

/// In a header mode, newline-free bytes only accumulate.
pub proof fn lemma_sm_run_text(seg: Seq<u8>, st: SmSt)
    requires
        st.mode == SmMode::Ident || st.mode == SmMode::Tag,
        forall|i: int| 0 <= i < seg.len() ==> #[trigger] seg[i] != NL,
    ensures
        spec_sm_run(seg, st) == (SmSt {
            mode: st.mode,
            id: st.id,
            tag: st.tag,
            pairs: st.pairs,
            key: st.key,
            cur: st.cur + seg,
        }),
    decreases seg.len(),
{
    if seg.len() == 0 {
        assert(st.cur + seg =~= st.cur);
        let f = spec_sm_run(seg, st);
        assert(f == st);
    } else {
        let st1 = spec_sm_step(st, seg[0]);
        assert(seg[0] != NL);
        assert(st1.cur == st.cur.push(seg[0]));
        assert forall|i: int| 0 <= i < seg.drop_first().len() implies #[trigger] seg.drop_first()[i]
            != NL by {
            assert(seg[i + 1] != NL);
        }
        lemma_sm_run_text(seg.drop_first(), st1);
        assert(st.cur.push(seg[0]) + seg.drop_first() =~= st.cur + seg);
    }
}

/// In a token mode, digit bytes only accumulate.
pub proof fn lemma_sm_run_digits(dg: Seq<u8>, st: SmSt)
    requires
        st.mode == SmMode::Key || st.mode == SmMode::Val,
        spec_all_digits(dg),
    ensures
        spec_sm_run(dg, st) == (SmSt {
            mode: st.mode,
            id: st.id,
            tag: st.tag,
            pairs: st.pairs,
            key: st.key,
            cur: st.cur + dg,
        }),
    decreases dg.len(),
{
    if dg.len() == 0 {
        assert(st.cur + dg =~= st.cur);
        let f = spec_sm_run(dg, st);
        assert(f == st);
    } else {
        assert(spec_is_digit(dg[0]));
        let st1 = spec_sm_step(st, dg[0]);
        assert(st1.cur == st.cur.push(dg[0]));
        assert forall|i: int| 0 <= i < dg.drop_first().len() implies spec_is_digit(
            #[trigger] dg.drop_first()[i],
        ) by {
            assert(spec_is_digit(dg[i + 1]));
        }
        lemma_sm_run_digits(dg.drop_first(), st1);
        assert(st.cur.push(dg[0]) + dg.drop_first() =~= st.cur + dg);
    }
}

/// Running a single byte is one step.
pub proof fn lemma_sm_run_one(b: u8, st: SmSt)
    ensures
        spec_sm_run(seq![b], st) == spec_sm_step(st, b),
{
    let s = seq![b];
    assert(s.drop_first().len() == 0);
    assert(spec_sm_run(s.drop_first(), spec_sm_step(st, s[0])) == spec_sm_step(st, s[0]));
}

/// From a line boundary, the rendered pair lines parse back to exactly
/// those pairs, appended in order.
pub proof fn lemma_sm_run_lines(ps: Seq<(u64, u64)>, st: SmSt)
    requires
        st.mode == SmMode::Key,
        st.cur.len() == 0,
    ensures
        spec_sm_run(spec_render_lines(ps), st) == (SmSt {
            mode: SmMode::Key,
            id: st.id,
            tag: st.tag,
            pairs: st.pairs + ps,
            key: spec_sm_run(spec_render_lines(ps), st).key,
            cur: Seq::empty(),
        }),
    decreases ps.len(),
{
    if ps.len() == 0 {
        assert(spec_render_lines(ps) =~= Seq::<u8>::empty());
        assert(st.pairs + ps =~= st.pairs);
        assert(st.cur =~= Seq::<u8>::empty());
        let f = spec_sm_run(spec_render_lines(ps), st);
        assert(f == st);
    } else {
        let p = ps[0];
        let kb = spec_dec_bytes(p.0 as nat);
        let vb = spec_dec_bytes(p.1 as nat);
        lemma_dec_bytes_digits(p.0 as nat);
        lemma_dec_bytes_digits(p.1 as nat);
        lemma_dec_val_of_dec_bytes(p.0 as nat);
        lemma_dec_val_of_dec_bytes(p.1 as nat);
        // Walk the four segments of the line.
        lemma_sm_run_digits(kb, st);
        let st1 = spec_sm_run(kb, st);
        assert(st1.cur =~= kb);
        let st2 = spec_sm_step(st1, COMMA);
        assert(!spec_is_digit(COMMA));
        assert(st2.mode == SmMode::Val && st2.key == p.0 && st2.cur.len() == 0);
        lemma_sm_run_digits(vb, st2);
        let st3 = spec_sm_run(vb, st2);
        assert(st3.cur =~= vb);
        let st4 = spec_sm_step(st3, NL);
        assert(!spec_is_digit(NL));
        assert(st4.mode == SmMode::Key && st4.cur.len() == 0);
        assert((st2.key, spec_dec_val(st3.cur) as u64) == p);
        assert(st4.pairs == st.pairs.push(p));
        // Compose them into the whole line.
        let line = spec_render_line(p);
        assert(line =~= kb + (seq![COMMA] + (vb + seq![NL])));
        lemma_sm_run_concat(kb, seq![COMMA] + (vb + seq![NL]), st);
        lemma_sm_run_concat(seq![COMMA], vb + seq![NL], st1);
        lemma_sm_run_one(COMMA, st1);
        lemma_sm_run_concat(vb, seq![NL], st2);
        lemma_sm_run_one(NL, st3);
        assert(spec_sm_run(line, st) == st4);
        // Then the remaining lines.
        lemma_sm_run_lines(ps.drop_first(), st4);
        lemma_sm_run_concat(line, spec_render_lines(ps.drop_first()), st);
        assert(spec_render_lines(ps) == line + spec_render_lines(ps.drop_first()));
        assert(st.pairs + ps =~= st4.pairs + ps.drop_first());
    }
}

/// Rendering a dump and parsing it back recovers the identifier, the tag
/// and every pair exactly, for any identifier and tag without a newline.
pub proof fn lemma_dump_round_trip(id: Seq<u8>, tag: Seq<u8>, ps: Seq<(u64, u64)>)
    requires
        forall|i: int| 0 <= i < id.len() ==> #[trigger] id[i] != NL,
        forall|i: int| 0 <= i < tag.len() ==> #[trigger] tag[i] != NL,
    ensures
        spec_parse_dump(spec_render_dump(id, tag, ps)) == Some((id, tag, ps)),
{
    let init = spec_sm_init();
    lemma_sm_run_text(id, init);
    let st1 = spec_sm_run(id, init);
    assert(st1.cur =~= id);
    let st2 = spec_sm_step(st1, NL);
    assert(st2.mode == SmMode::Tag && st2.id == id && st2.cur.len() == 0);
    lemma_sm_run_text(tag, st2);
    let st3 = spec_sm_run(tag, st2);
    assert(st3.cur =~= tag);
    let st4 = spec_sm_step(st3, NL);
    assert(st4.mode == SmMode::Key && st4.tag == tag && st4.cur.len() == 0);
    lemma_sm_run_lines(ps, st4);
    let f = spec_sm_run(spec_render_lines(ps), st4);
    assert(f.pairs =~= ps);
    // Compose the whole rendered dump.
    let dump = spec_render_dump(id, tag, ps);
    assert(dump =~= id + (seq![NL] + (tag + (seq![NL] + spec_render_lines(ps)))));
    lemma_sm_run_concat(id, seq![NL] + (tag + (seq![NL] + spec_render_lines(ps))), init);
    lemma_sm_run_concat(seq![NL], tag + (seq![NL] + spec_render_lines(ps)), st1);
    lemma_sm_run_one(NL, st1);
    lemma_sm_run_concat(tag, seq![NL] + spec_render_lines(ps), st2);
    lemma_sm_run_concat(seq![NL], spec_render_lines(ps), st3);
    lemma_sm_run_one(NL, st3);
    assert(spec_sm_run(dump, init) == f);
}

/// Parses a dump: the identifier, the tag and the pairs, exactly as
/// `spec_parse_dump` says; any malformed token, stray byte or truncated
/// line yields nothing.
pub fn parse_dump(s: &Vec<u8>) -> (r: Option<(Vec<u8>, Vec<u8>, Vec<(u64, u64)>)>)
    ensures
        match r {
            Some(d) => spec_parse_dump(s@) == Some((d.0@, d.1@, d.2@)),
            None => spec_parse_dump(s@) is None,
        },
{
    let len = s.len();
    let mut mode = SmMode::Ident;
    let mut idv: Vec<u8> = Vec::new();
    let mut tagv: Vec<u8> = Vec::new();
    let mut pairs: Vec<(u64, u64)> = Vec::new();
    let mut key: u64 = 0;
    let mut curv: Vec<u8> = Vec::new();
    let mut val: u64 = 0;
    let mut over: bool = false;
    let mut i: usize = 0;
    proof {
        assert(s@.subrange(0, len as int) =~= s@);
    }
    while i < len
        invariant
            len == s@.len(),
            i <= len,
            spec_sm_run(
                s@.subrange(i as int, len as int),
                SmSt { mode: mode, id: idv@, tag: tagv@, pairs: pairs@, key: key, cur: curv@ },
            ) == spec_sm_run(s@, spec_sm_init()),
            (mode == SmMode::Key || mode == SmMode::Val) ==> spec_all_digits(curv@) && (over
                <==> spec_dec_val(curv@) > u64::MAX) && (!over ==> val == spec_dec_val(curv@)),
            (mode == SmMode::Ident || mode == SmMode::Tag) ==> val == 0 && !over,
        decreases len - i,
    {
        let ghost pre = SmSt {
            mode: mode,
            id: idv@,
            tag: tagv@,
            pairs: pairs@,
            key: key,
            cur: curv@,
        };
        let b = s[i];
        match mode {
            SmMode::Ident => {
                if b == NL {
                    mode = SmMode::Tag;
                    idv = curv;
                    curv = Vec::new();
                } else {
                    curv.push(b);
                }
            },
            SmMode::Tag => {
                if b == NL {
                    mode = SmMode::Key;
                    tagv = curv;
                    curv = Vec::new();
                } else {
                    curv.push(b);
                }
            },
            SmMode::Key => {
                if 48 <= b && b <= 57 {
                    proof {
                        lemma_dec_val_nonneg(curv@);
                    }
                    let ghost prior = curv@;
                    curv.push(b);
                    let (val2, over2) = acc_digit(val, over, b - 48, Ghost(spec_dec_val(prior)));
                    val = val2;
                    over = over2;
                    proof {
                        assert(curv@.drop_last() =~= prior);
                        assert(spec_dec_val(curv@) == spec_dec_val(prior) * 10 + (b - 48));
                        assert forall|j: int| 0 <= j < curv@.len() implies spec_is_digit(
                            #[trigger] curv@[j],
                        ) by {
                            if j < prior.len() {
                                assert(spec_is_digit(prior[j]));
                            }
                        }
                    }
                } else if b == COMMA {
                    proof {
                        lemma_dec_val_nonneg(curv@);
                    }
                    if curv.len() > 0 && !over {
                        mode = SmMode::Val;
                        key = val;
                        curv.clear();
                        val = 0;
                        over = false;
                    } else {
                        mode = SmMode::Failed;
                    }
                } else {
                    mode = SmMode::Failed;
                }
            },
            SmMode::Val => {
                if 48 <= b && b <= 57 {
                    proof {
                        lemma_dec_val_nonneg(curv@);
                    }
                    let ghost prior = curv@;
                    curv.push(b);
                    let (val2, over2) = acc_digit(val, over, b - 48, Ghost(spec_dec_val(prior)));
                    val = val2;
                    over = over2;
                    proof {
                        assert(curv@.drop_last() =~= prior);
                        assert(spec_dec_val(curv@) == spec_dec_val(prior) * 10 + (b - 48));
                        assert forall|j: int| 0 <= j < curv@.len() implies spec_is_digit(
                            #[trigger] curv@[j],
                        ) by {
                            if j < prior.len() {
                                assert(spec_is_digit(prior[j]));
                            }
                        }
                    }
                } else if b == NL {
                    proof {
                        lemma_dec_val_nonneg(curv@);
                    }
                    if curv.len() > 0 && !over {
                        mode = SmMode::Key;
                        pairs.push((key, val));
                        curv.clear();
                        val = 0;
                        over = false;
                    } else {
                        mode = SmMode::Failed;
                    }
                } else {
                    mode = SmMode::Failed;
                }
            },
            SmMode::Failed => {},
        }
        proof {
            let post = SmSt {
                mode: mode,
                id: idv@,
                tag: tagv@,
                pairs: pairs@,
                key: key,
                cur: curv@,
            };
            assert(post == spec_sm_step(pre, b));
            assert(s@.subrange(i as int, len as int).drop_first() =~= s@.subrange(
                i as int + 1,
                len as int,
            ));
            assert(s@.subrange(i as int, len as int)[0] == s@[i as int]);
        }
        i = i + 1;
    }
    proof {
        assert(s@.subrange(len as int, len as int).len() == 0);
        assert(s@.subrange(0, len as int) =~= s@);
    }
    match mode {
        SmMode::Key => {
            if curv.len() == 0 {
                Some((idv, tagv, pairs))
            } else {
                None
            }
        },
        _ => None,
    }
}

} // verus!
