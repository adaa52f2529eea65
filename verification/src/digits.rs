//! Decimal rendering and parsing of unsigned counters. The ledger
//! serializes every key and value as a decimal string; these are the exact
//! specifications of that form, the renderers into text and into raw
//! bytes, and the parser back, with the round trip proved.

use vstd::prelude::*;

verus! {

/// The digit character for one decimal digit.
pub open spec fn spec_digit_char(d: int) -> char {
    if d == 0 {
        '0'
    } else if d == 1 {
        '1'
    } else if d == 2 {
        '2'
    } else if d == 3 {
        '3'
    } else if d == 4 {
        '4'
    } else if d == 5 {
        '5'
    } else if d == 6 {
        '6'
    } else if d == 7 {
        '7'
    } else if d == 8 {
        '8'
    } else {
        '9'
    }
}

/// The canonical decimal rendering of `n` as characters: no sign, no
/// leading zeros (a single `'0'` for zero).
pub open spec fn spec_dec_chars(n: nat) -> Seq<char>
    decreases n,
{
    if n < 10 {
        seq![spec_digit_char(n as int)]
    } else {
        spec_dec_chars(n / 10).push(spec_digit_char((n % 10) as int))
    }
}

/// The canonical decimal rendering of `n` as ASCII bytes.
pub open spec fn spec_dec_bytes(n: nat) -> Seq<u8>
    decreases n,
{
    if n < 10 {
        seq![(48 + n) as u8]
    } else {
        spec_dec_bytes(n / 10).push((48 + n % 10) as u8)
    }
}

/// An ASCII decimal digit byte.
pub open spec fn spec_is_digit(b: u8) -> bool {
    48 <= b <= 57
}

pub open spec fn spec_all_digits(s: Seq<u8>) -> bool {
    forall|i: int| 0 <= i < s.len() ==> spec_is_digit(#[trigger] s[i])
}

/// The numeric value of a sequence of decimal digit bytes, most
/// significant first.
pub open spec fn spec_dec_val(s: Seq<u8>) -> int
    decreases s.len(),
{
    if s.len() == 0 {
        0
    } else {
        spec_dec_val(s.drop_last()) * 10 + (s.last() - 48)
    }
}

/// What parsing a decimal byte string as a `u64` yields: the value, when
/// the string is a nonempty run of digits whose value fits.
pub open spec fn spec_parse_decimal(s: Seq<u8>) -> Option<u64> {
    if s.len() > 0 && spec_all_digits(s) && 0 <= spec_dec_val(s) <= u64::MAX {
        Some(spec_dec_val(s) as u64)
    } else {
        None
    }
}

/// The decimal rendering is nonempty and consists of digit bytes only.
pub proof fn lemma_dec_bytes_digits(n: nat)
    ensures
        spec_dec_bytes(n).len() >= 1,
        spec_all_digits(spec_dec_bytes(n)),
    decreases n,
{
    if n >= 10 {
        lemma_dec_bytes_digits(n / 10);
        assert forall|i: int| 0 <= i < spec_dec_bytes(n).len() implies spec_is_digit(
            #[trigger] spec_dec_bytes(n)[i],
        ) by {
            if i < spec_dec_bytes(n / 10).len() {
                assert(spec_dec_bytes(n)[i] == spec_dec_bytes(n / 10)[i]);
            }
        }
    }
}

/// Rendering then revaluing is the identity: the decimal bytes of `n`
/// denote `n`.
pub proof fn lemma_dec_val_of_dec_bytes(n: nat)
    ensures
        spec_dec_val(spec_dec_bytes(n)) == n,
    decreases n,
{
    if n < 10 {
        assert(spec_dec_bytes(n) == seq![(48 + n) as u8]);
        assert(spec_dec_bytes(n).drop_last() =~= Seq::<u8>::empty());
        assert(spec_dec_bytes(n).last() == (48 + n) as u8);
        assert((48 + n) as u8 == 48 + n);
        assert(spec_dec_val(spec_dec_bytes(n)) == spec_dec_val(Seq::<u8>::empty()) * 10 + ((48 + n)
            - 48));
    } else {
        lemma_dec_val_of_dec_bytes(n / 10);
        assert(spec_dec_bytes(n).drop_last() =~= spec_dec_bytes(n / 10));
        assert(spec_dec_bytes(n).last() == (48 + n % 10) as u8);
        assert((48 + n % 10) as u8 == 48 + n % 10);
        assert(spec_dec_val(spec_dec_bytes(n)) == (n / 10) * 10 + (n % 10));
    }
}

/// A run of digit bytes always denotes a nonnegative value.
pub proof fn lemma_dec_val_nonneg(s: Seq<u8>)
    requires
        spec_all_digits(s),
    ensures
        0 <= spec_dec_val(s),
    decreases s.len(),
{
    if s.len() > 0 {
        assert forall|i: int| 0 <= i < s.drop_last().len() implies spec_is_digit(
            #[trigger] s.drop_last()[i],
        ) by {
            assert(spec_is_digit(s[i]));
        }
        lemma_dec_val_nonneg(s.drop_last());
        assert(spec_is_digit(s.last()));
    }
}

/// The one-character string for a decimal digit.
fn digit_str(d: u64) -> (r: &'static str)
    requires
        d < 10,
    ensures
        r@.len() == 1,
        r@[0] == spec_digit_char(d as int),
{
    proof {
        reveal_strlit("0");
        reveal_strlit("1");
        reveal_strlit("2");
        reveal_strlit("3");
        reveal_strlit("4");
        reveal_strlit("5");
        reveal_strlit("6");
        reveal_strlit("7");
        reveal_strlit("8");
        reveal_strlit("9");
    }
    if d == 0 {
        "0"
    } else if d == 1 {
        "1"
    } else if d == 2 {
        "2"
    } else if d == 3 {
        "3"
    } else if d == 4 {
        "4"
    } else if d == 5 {
        "5"
    } else if d == 6 {
        "6"
    } else if d == 7 {
        "7"
    } else if d == 8 {
        "8"
    } else {
        "9"
    }
}

/// Appends the decimal rendering of `n` to `s`.
pub fn push_decimal(s: &mut String, n: u64)
    ensures
        final(s)@ == old(s)@ + spec_dec_chars(n as nat),
    decreases n,
{
    if n >= 10 {
        push_decimal(s, n / 10);
    }
    let d = digit_str(n % 10);
    s.append(d);
    proof {
        assert(final(s)@ =~= old(s)@ + spec_dec_chars(n as nat));
    }
}

/// The decimal rendering of `n` as a fresh string.
pub fn u64_to_string(n: u64) -> (r: String)
    ensures
        r@ == spec_dec_chars(n as nat),
{
    let mut s = String::new();
    push_decimal(&mut s, n);
    proof {
        assert(s@ =~= spec_dec_chars(n as nat));
    }
    s
}

/// Appends the decimal rendering of `n` to a byte buffer.
pub fn push_decimal_bytes(v: &mut Vec<u8>, n: u64)
    ensures
        final(v)@ == old(v)@ + spec_dec_bytes(n as nat),
    decreases n,
{
    if n >= 10 {
        push_decimal_bytes(v, n / 10);
    }
    let d: u8 = 48 + (n % 10) as u8;
    v.push(d);
    proof {
        assert(final(v)@ =~= old(v)@ + spec_dec_bytes(n as nat));
    }
}

/// The decimal rendering of `n` as fresh bytes.
pub fn u64_to_dec_bytes(n: u64) -> (r: Vec<u8>)
    ensures
        r@ == spec_dec_bytes(n as nat),
{
    let mut v: Vec<u8> = Vec::new();
    push_decimal_bytes(&mut v, n);
    proof {
        assert(v@ =~= spec_dec_bytes(n as nat));
    }
    v
}

/// One step of decimal accumulation: extends the value `n` accumulated so
/// far (carried in ghost form, so it may stand past `u64::MAX`) by the
/// digit `d`, tracking overflow exactly.
pub(crate) fn acc_digit(acc: u64, over: bool, d: u8, Ghost(n): Ghost<int>) -> (r: (u64, bool))
    requires
        d < 10,
        0 <= n,
        over <==> n > u64::MAX,
        !over ==> acc == n,
    ensures
        r.1 <==> n * 10 + d > u64::MAX,
        !r.1 ==> r.0 == n * 10 + d,
{
    if over {
        proof {
            assert(n * 10 >= (u64::MAX + 1) * 10);
        }
        (acc, true)
    } else {
        let dd = d as u64;
        let q = (u64::MAX - dd) / 10;
        if acc > q {
            proof {
                assert(acc * 10 >= (q + 1) * 10);
                assert((q + 1) * 10 > u64::MAX - dd);
            }
            (acc, true)
        } else {
            proof {
                assert(acc * 10 <= q * 10);
                assert(q * 10 <= u64::MAX - dd);
            }
            (acc * 10 + dd, false)
        }
    }
}

/// Parses a decimal byte string as an unsigned 64-bit counter: `Some`
/// exactly on a nonempty run of digit bytes whose value fits.
pub fn parse_decimal(s: &Vec<u8>) -> (r: Option<u64>)
    ensures
        r == spec_parse_decimal(s@),
{
    let n = s.len();
    if n == 0 {
        return None;
    }
    let mut acc: u64 = 0;
    let mut over: bool = false;
    let mut i: usize = 0;
    while i < n
        invariant
            n == s@.len(),
            0 <= i <= n,
            spec_all_digits(s@.subrange(0, i as int)),
            over <==> spec_dec_val(s@.subrange(0, i as int)) > u64::MAX,
            !over ==> acc == spec_dec_val(s@.subrange(0, i as int)),
        decreases n - i,
    {
        let b = s[i];
        if b < 48 || b > 57 {
            proof {
                assert(!spec_is_digit(s@[i as int]));
            }
            return None;
        }
        let ghost pre = s@.subrange(0, i as int);
        let ghost cur = s@.subrange(0, i as int + 1);
        let (acc2, over2) = acc_digit(acc, over, b - 48, Ghost(spec_dec_val(pre)));
        acc = acc2;
        over = over2;
        i = i + 1;
        proof {
            assert(cur.drop_last() =~= pre);
            assert(spec_dec_val(cur) == spec_dec_val(pre) * 10 + (b - 48));
            assert forall|j: int| 0 <= j < cur.len() implies spec_is_digit(#[trigger] cur[j]) by {
                if j < pre.len() {
                    assert(spec_is_digit(pre[j]));
                }
            }
        }
    }
    proof {
        assert(s@.subrange(0, n as int) =~= s@);
    }
    if over {
        None
    } else {
        Some(acc)
    }
}

} // verus!
