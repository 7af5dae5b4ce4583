//! Decimal text for the integers that appear in the status JSON.
//!
//! `dec_rep` fixes the canonical decimal form of a natural number, and
//! `dec_rep_int` that of a signed one. The executable renderers produce
//! exactly those forms; the scanners read a number back and say, by way
//! of `spec_parse_u64_at` and `spec_parse_i64_at`, precisely what they
//! return on every input. The lemmas at the end connect the two sides:
//! a rendered number followed by a non-digit always scans back to the
//! value it came from.

use vstd::prelude::*;

verus! {

/// Numeric value of a decimal digit, or -1 for any other character.
pub open spec fn digit_val(c: char) -> int {
    if c == '0' {
        0
    } else if c == '1' {
        1
    } else if c == '2' {
        2
    } else if c == '3' {
        3
    } else if c == '4' {
        4
    } else if c == '5' {
        5
    } else if c == '6' {
        6
    } else if c == '7' {
        7
    } else if c == '8' {
        8
    } else if c == '9' {
        9
    } else {
        -1
    }
}

pub open spec fn is_digit(c: char) -> bool {
    digit_val(c) >= 0
}

/// The digit character for a value below ten.
pub open spec fn char_of_digit(d: int) -> char {
    if d == 0 {
        '0'
    } else if d == 1 {
        '1'
    } else if d == 2 {
        '2'
    } else if d == 3 {
        '3'
    } else if d == 4 {
        '4'
    } else if d == 5 {
        '5'
    } else if d == 6 {
        '6'
    } else if d == 7 {
        '7'
    } else if d == 8 {
        '8'
    } else {
        '9'
    }
}

/// Canonical decimal form of a natural number: no sign, no leading
/// zero except for the number zero itself.
pub open spec fn dec_rep(n: nat) -> Seq<char>
    decreases n,
{
    if n < 10 {
        seq![char_of_digit(n as int)]
    } else {
        dec_rep(n / 10).push(char_of_digit((n % 10) as int))
    }
}

/// Canonical decimal form of an integer: a minus sign before the
/// magnitude when negative.
pub open spec fn dec_rep_int(i: int) -> Seq<char> {
    if i < 0 {
        seq!['-'] + dec_rep((-i) as nat)
    } else {
        dec_rep(i as nat)
    }
}

pub open spec fn all_digits(s: Seq<char>) -> bool {
    forall|k: int| 0 <= k < s.len() ==> is_digit(#[trigger] s[k])
}

/// Value of a digit string, most significant digit first.
pub open spec fn dec_val(s: Seq<char>) -> int
    decreases s.len(),
{
    if s.len() == 0 {
        0
    } else {
        dec_val(s.drop_last()) * 10 + digit_val(s.last())
    }
}

/// Ten to the power `e`.
pub open spec fn pow10(e: nat) -> int
    decreases e,
{
    if e == 0 {
        1
    } else {
        10 * pow10((e - 1) as nat)
    }
}

/// What scanning digits from position `i` with accumulator `acc`
/// returns: the accumulated value and the position of the first
/// non-digit, or nothing on overflow of a 64-bit value.
pub open spec fn spec_scan_u64(s: Seq<char>, i: int, acc: u64) -> Option<(u64, int)>
    decreases s.len() - i,
{
    if 0 <= i < s.len() && is_digit(s[i]) {
        if acc * 10 + digit_val(s[i]) > u64::MAX {
            None
        } else {
            spec_scan_u64(s, i + 1, (acc * 10 + digit_val(s[i])) as u64)
        }
    } else {
        Some((acc, i))
    }
}

/// What parsing an unsigned number at position `i` returns: the run of
/// digits starting there, provided it is non-empty, has no leading
/// zero, and fits in 64 bits.
pub open spec fn spec_parse_u64_at(s: Seq<char>, i: int) -> Option<(u64, int)> {
    if 0 <= i < s.len() && is_digit(s[i]) && !(s[i] == '0' && i + 1 < s.len() && is_digit(
        s[i + 1],
    )) {
        spec_scan_u64(s, i, 0)
    } else {
        None
    }
}

/// What parsing a signed number at position `i` returns: an optional
/// minus sign followed by a canonical magnitude in the range of `i64`;
/// a minus sign demands a positive magnitude.
pub open spec fn spec_parse_i64_at(s: Seq<char>, i: int) -> Option<(i64, int)> {
    if 0 <= i < s.len() && s[i] == '-' {
        match spec_parse_u64_at(s, i + 1) {
            Some((mag, j)) => if 1 <= mag <= 0x8000_0000_0000_0000u64 {
                Some(((-(mag as int)) as i64, j))
            } else {
                None
            },
            None => None,
        }
    } else {
        match spec_parse_u64_at(s, i) {
            Some((v, j)) => if v <= i64::MAX as u64 {
                Some((v as i64, j))
            } else {
                None
            },
            None => None,
        }
    }
}

/// The digit value of a character, where it has one.
pub fn digit_value(c: char) -> (r: Option<u8>)
    ensures
        r is Some <==> is_digit(c),
        r matches Some(d) ==> d == digit_val(c),
{
    if c == '0' {
        Some(0)
    } else if c == '1' {
        Some(1)
    } else if c == '2' {
        Some(2)
    } else if c == '3' {
        Some(3)
    } else if c == '4' {
        Some(4)
    } else if c == '5' {
        Some(5)
    } else if c == '6' {
        Some(6)
    } else if c == '7' {
        Some(7)
    } else if c == '8' {
        Some(8)
    } else if c == '9' {
        Some(9)
    } else {
        None
    }
}

/// The one-character string for a digit.
fn digit_str(d: u8) -> (r: &'static str)
    requires
        d < 10,
    ensures
        r@ =~= seq![char_of_digit(d as int)],
{
    if d == 0 {
        proof {
            reveal_strlit("0");
        }
        "0"
    } else if d == 1 {
        proof {
            reveal_strlit("1");
        }
        "1"
    } else if d == 2 {
        proof {
            reveal_strlit("2");
        }
        "2"
    } else if d == 3 {
        proof {
            reveal_strlit("3");
        }
        "3"
    } else if d == 4 {
        proof {
            reveal_strlit("4");
        }
        "4"
    } else if d == 5 {
        proof {
            reveal_strlit("5");
        }
        "5"
    } else if d == 6 {
        proof {
            reveal_strlit("6");
        }
        "6"
    } else if d == 7 {
        proof {
            reveal_strlit("7");
        }
        "7"
    } else if d == 8 {
        proof {
            reveal_strlit("8");
        }
        "8"
    } else {
        proof {
            reveal_strlit("9");
        }
        "9"
    }
}

/// Render an unsigned number in its canonical decimal form.
pub fn u64_to_dec(n: u64) -> (r: String)
    ensures
        r@ == dec_rep(n as nat),
    decreases n,
{
    if n < 10 {
        let mut s = String::new();
        s.append(digit_str(n as u8));
        proof {
            assert(s@ =~= dec_rep(n as nat));
        }
        s
    } else {
        let mut s = u64_to_dec(n / 10);
        s.append(digit_str((n % 10) as u8));
        proof {
            assert(s@ =~= dec_rep(n as nat));
        }
        s
    }
}

/// Render a signed number in its canonical decimal form.
pub fn i64_to_dec(v: i64) -> (r: String)
    ensures
        r@ == dec_rep_int(v as int),
{
    if v >= 0 {
        u64_to_dec(v as u64)
    } else {
        let mag_wide: i128 = -(v as i128);
        let mag: u64 = mag_wide as u64;
        let mut s = String::new();
        proof {
            reveal_strlit("-");
        }
        s.append("-");
        let rendered = u64_to_dec(mag);
        s.append(rendered.as_str());
        proof {
            assert(s@ =~= dec_rep_int(v as int));
        }
        s
    }
}

/// Scan a run of digits from position `i`, accumulating into `acc`;
/// mirrors `spec_scan_u64`.
fn scan_u64(s: &str, n: usize, i: usize, acc: u64) -> (r: Option<(u64, usize)>)
    requires
        n == s@.len(),
        i <= n,
    ensures
        (match r {
            None => spec_scan_u64(s@, i as int, acc) is None,
            Some(p) => spec_scan_u64(s@, i as int, acc) == Some((p.0, p.1 as int)) && i <= p.1
                <= n,
        }),
    decreases n - i,
{
    if i < n {
        let c = s.get_char(i);
        match digit_value(c) {
            Some(d) => {
                let wide: u128 = (acc as u128) * 10 + (d as u128);
                if wide > u64::MAX as u128 {
                    None
                } else {
                    scan_u64(s, n, i + 1, wide as u64)
                }
            },
            None => Some((acc, i)),
        }
    } else {
        Some((acc, i))
    }
}

/// Parse an unsigned number at position `i`; mirrors
/// `spec_parse_u64_at`.
pub fn parse_u64_at(s: &str, n: usize, i: usize) -> (r: Option<(u64, usize)>)
    requires
        n == s@.len(),
        i <= n,
    ensures
        (match r {
            None => spec_parse_u64_at(s@, i as int) is None,
            Some(p) => spec_parse_u64_at(s@, i as int) == Some((p.0, p.1 as int)) && i <= p.1
                <= n,
        }),
{
    if i < n {
        let c = s.get_char(i);
        match digit_value(c) {
            Some(d) => {
                if d == 0 && i + 1 < n {
                    let c1 = s.get_char(i + 1);
                    if digit_value(c1).is_some() {
                        return None;
                    }
                }
                scan_u64(s, n, i, 0)
            },
            None => None,
        }
    } else {
        None
    }
}

/// Parse a signed number at position `i`; mirrors `spec_parse_i64_at`.
pub fn parse_i64_at(s: &str, n: usize, i: usize) -> (r: Option<(i64, usize)>)
    requires
        n == s@.len(),
        i <= n,
    ensures
        (match r {
            None => spec_parse_i64_at(s@, i as int) is None,
            Some(p) => spec_parse_i64_at(s@, i as int) == Some((p.0, p.1 as int)) && i <= p.1
                <= n,
        }),
{
    if i < n && s.get_char(i) == '-' {
        match parse_u64_at(s, n, i + 1) {
            Some((mag, j)) => {
                if 1 <= mag && mag <= 0x8000_0000_0000_0000u64 {
                    let wide: i128 = -(mag as i128);
                    Some((wide as i64, j))
                } else {
                    None
                }
            },
            None => None,
        }
    } else {
        match parse_u64_at(s, n, i) {
            Some((v, j)) => {
                if v <= i64::MAX as u64 {
                    Some((v as i64, j))
                } else {
                    None
                }
            },
            None => None,
        }
    }
}

/// The canonical form of a number consists of digits, is never empty,
/// starts with a zero only for the number zero, and evaluates back to
/// the number it renders.
pub proof fn lemma_dec_rep_props(n: nat)
    ensures
        all_digits(dec_rep(n)),
        dec_rep(n).len() >= 1,
        n >= 1 ==> dec_rep(n).first() != '0',
        n < 10 ==> dec_rep(n) =~= seq![char_of_digit(n as int)],
        dec_val(dec_rep(n)) == n,
    decreases n,
{
    if n < 10 {
        let rep = seq![char_of_digit(n as int)];
        assert(rep.drop_last() =~= Seq::<char>::empty());
        assert(dec_val(rep) == dec_val(Seq::<char>::empty()) * 10 + digit_val(rep.last()));
        assert(dec_val(rep) == digit_val(char_of_digit(n as int)));
    } else {
        lemma_dec_rep_props(n / 10);
        let head = dec_rep(n / 10);
        let c = char_of_digit((n % 10) as int);
        assert(dec_rep(n) == head.push(c));
        assert(head.push(c).drop_last() =~= head);
        assert(head.push(c).last() == c);
        assert(dec_val(dec_rep(n)) == dec_val(head) * 10 + digit_val(c));
        assert((n / 10) * 10 + n % 10 == n) by (nonlinear_arith);
        assert(dec_rep(n).first() == head.first());
    }
}

/// A digit string has a non-negative value.
pub proof fn lemma_dec_val_nonneg(s: Seq<char>)
    requires
        all_digits(s),
    ensures
        dec_val(s) >= 0,
    decreases s.len(),
{
    if s.len() > 0 {
        assert(all_digits(s.drop_last()));
        lemma_dec_val_nonneg(s.drop_last());
    }
}

/// Peel the most significant digit off a digit string.
proof fn lemma_dec_val_first(s: Seq<char>)
    requires
        all_digits(s),
        s.len() >= 1,
    ensures
        dec_val(s) == digit_val(s.first()) * pow10((s.len() - 1) as nat) + dec_val(
            s.drop_first(),
        ),
    decreases s.len(),
{
    if s.len() == 1 {
        assert(s.drop_last() =~= Seq::<char>::empty());
        assert(s.drop_first() =~= Seq::<char>::empty());
        assert(s.last() == s.first());
        assert(dec_val(s) == dec_val(Seq::<char>::empty()) * 10 + digit_val(s.last()));
        assert(pow10(0) == 1);
        assert(dec_val(s) == digit_val(s.first()) * 1 + 0);
    } else {
        let t = s.drop_last();
        assert(all_digits(t));
        lemma_dec_val_first(t);
        assert(t.first() == s.first());
        assert(t.drop_first() =~= s.drop_first().drop_last());
        assert(s.drop_first().last() == s.last());
        let e = (s.len() - 2) as nat;
        let d0 = digit_val(s.first());
        let pe = pow10(e);
        let x = dec_val(t.drop_first());
        let dl = digit_val(s.last());
        assert(pow10((s.len() - 1) as nat) == 10 * pe);
        assert(dec_val(s) == dec_val(t) * 10 + dl);
        assert(dec_val(t) == d0 * pe + x);
        assert((d0 * pe + x) * 10 + dl == d0 * (10 * pe) + (x * 10 + dl)) by (nonlinear_arith);
        assert(dec_val(s.drop_first()) == dec_val(s.drop_first().drop_last()) * 10 + digit_val(
            s.drop_first().last(),
        ));
        assert(dec_val(s.drop_first()) == x * 10 + dl);
        assert(dec_val(s) == d0 * (10 * pe) + dec_val(s.drop_first()));
    }
}

/// Ten to any power is positive.
proof fn lemma_pow10_positive(e: nat)
    ensures
        pow10(e) >= 1,
    decreases e,
{
    if e > 0 {
        lemma_pow10_positive((e - 1) as nat);
    }
}

/// Scanning a complete run of digits yields the accumulated value and
/// stops at its end, provided that value fits in 64 bits.
proof fn lemma_scan_digit_run(s: Seq<char>, i: int, j: int, acc: u64)
    requires
        0 <= i <= j <= s.len(),
        forall|k: int| i <= k < j ==> is_digit(#[trigger] s[k]),
        j == s.len() || !is_digit(s[j]),
        acc * pow10((j - i) as nat) + dec_val(s.subrange(i, j)) <= u64::MAX,
    ensures
        spec_scan_u64(s, i, acc) == Some(
            ((acc * pow10((j - i) as nat) + dec_val(s.subrange(i, j))) as u64, j),
        ),
    decreases j - i,
{
    let run = s.subrange(i, j);
    assert(all_digits(run));
    lemma_dec_val_nonneg(run);
    if i == j {
        assert(run =~= Seq::<char>::empty());
    } else {
        let d = digit_val(s[i]);
        let k = (j - i) as nat;
        let tail = s.subrange(i + 1, j);
        lemma_dec_val_first(run);
        assert(run.first() == s[i]);
        assert(run.drop_first() =~= tail);
        lemma_dec_val_nonneg(tail);
        lemma_pow10_positive((k - 1) as nat);
        assert(pow10(k) == 10 * pow10((k - 1) as nat));
        let total = acc * pow10(k) + dec_val(run);
        let pk1 = pow10((k - 1) as nat);
        assert(pow10(k) == 10 * pk1);
        assert(acc * (10 * pk1) + d * pk1 == (acc * 10 + d) * pk1) by (nonlinear_arith);
        assert(total == (acc * 10 + d) * pk1 + dec_val(tail));
        assert((acc * 10 + d) * pow10((k - 1) as nat) >= (acc * 10 + d) * 1) by (nonlinear_arith)
            requires
                pow10((k - 1) as nat) >= 1,
                acc * 10 + d >= 0,
        ;
        assert(acc * 10 + d <= total);
        let acc1 = (acc * 10 + d) as u64;
        lemma_scan_digit_run(s, i + 1, j, acc1);
    }
}

/// A rendered unsigned number, standing at position `i` and followed
/// by a non-digit, parses back to itself.
pub proof fn lemma_parse_u64_dec_rep(s: Seq<char>, i: int, n: u64)
    requires
        0 <= i,
        i + dec_rep(n as nat).len() <= s.len(),
        s.subrange(i, i + dec_rep(n as nat).len()) == dec_rep(n as nat),
        i + dec_rep(n as nat).len() == s.len() || !is_digit(s[i + dec_rep(n as nat).len()]),
    ensures
        spec_parse_u64_at(s, i) == Some((n, i + dec_rep(n as nat).len())),
{
    lemma_dec_rep_props(n as nat);
    let rep = dec_rep(n as nat);
    let j = i + rep.len();
    assert(forall|k: int| i <= k < j ==> is_digit(#[trigger] s[k])) by {
        assert(forall|k: int| i <= k < j ==> s[k] == rep[k - i]);
    }
    assert(s[i] == rep.first());
    if s[i] == '0' {
        assert(n < 10);
        assert(n == 0);
        assert(rep.len() == 1);
        assert(!(i + 1 < s.len() && is_digit(s[i + 1])));
    }
    lemma_scan_digit_run(s, i, j, 0);
    assert(0 * pow10(rep.len() as nat) + dec_val(s.subrange(i, j)) == n);
}

/// A rendered signed number, standing at position `i` and followed by
/// a non-digit, parses back to itself.
pub proof fn lemma_parse_i64_dec_rep(s: Seq<char>, i: int, v: i64)
    requires
        0 <= i,
        i + dec_rep_int(v as int).len() <= s.len(),
        s.subrange(i, i + dec_rep_int(v as int).len()) == dec_rep_int(v as int),
        i + dec_rep_int(v as int).len() == s.len() || !is_digit(
            s[i + dec_rep_int(v as int).len()],
        ),
    ensures
        spec_parse_i64_at(s, i) == Some((v, i + dec_rep_int(v as int).len())),
{
    let rep = dec_rep_int(v as int);
    let j = i + rep.len();
    if v >= 0 {
        assert(rep == dec_rep(v as nat));
        lemma_dec_rep_props(v as nat);
        assert(s[i] == rep.first());
        assert(s[i] != '-');
        lemma_parse_u64_dec_rep(s, i, v as u64);
    } else {
        let mag = (-(v as int)) as nat;
        lemma_dec_rep_props(mag);
        let magrep = dec_rep(mag);
        assert(rep == seq!['-'] + magrep);
        assert(s[i] == rep.first());
        assert(rep.first() == '-');
        assert(s.subrange(i + 1, j) =~= magrep) by {
            assert(forall|k: int| 0 <= k < magrep.len() ==> rep[k + 1] == magrep[k]);
        }
        assert(mag <= 0x8000_0000_0000_0000u64);
        lemma_parse_u64_dec_rep(s, i + 1, mag as u64);
    }
}

} // verus!
