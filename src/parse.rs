use vstd::prelude::*;
use vstd::string::{StrSliceExecFns, StringExecFns};

use crate::fixed::{round_div, Fixed, MAX_UNITS};
use crate::text::{
    control_count, echo_of, is_decoration, push_char, sanitize_for_error_message, security_message, security_ok,
    strip_decorations, trim_text, trimmed, undecorated, validate_input_security,
};

verus! {

pub open spec fn is_digit(c: char) -> bool {
    0x30 <= (c as u32) <= 0x39
}

pub open spec fn digit_of(c: char) -> nat {
    ((c as u32) - 0x30) as nat
}

pub open spec fn pow10(n: nat) -> nat
    decreases n,
{
    if n == 0 {
        1
    } else {
        10 * pow10((n - 1) as nat)
    }
}

/// The value of a sequence of decimal digits, most significant first.
pub open spec fn digits_value(s: Seq<char>) -> nat
    decreases s.len(),
{
    if s.len() == 0 {
        0
    } else {
        digits_value(s.drop_last()) * 10 + digit_of(s.last())
    }
}

/// The end of the run of digits in `t` that starts at `from`.
pub open spec fn digit_run(t: Seq<char>, from: int) -> int
    decreases t.len() - from,
{
    if 0 <= from < t.len() && is_digit(t[from]) {
        digit_run(t, from + 1)
    } else {
        from
    }
}

// The layout of a decimal literal: an optional sign, integer digits, an
// optional point with fraction digits, and an optional exponent made of `e`
// or `E`, an optional sign and digits.
pub open spec fn sign_len(t: Seq<char>) -> int {
    if t.len() > 0 && (t[0] == '+' || t[0] == '-') {
        1
    } else {
        0
    }
}

pub open spec fn int_end(t: Seq<char>) -> int {
    digit_run(t, sign_len(t))
}

pub open spec fn has_point(t: Seq<char>) -> bool {
    int_end(t) < t.len() && t[int_end(t)] == '.'
}

pub open spec fn frac_start(t: Seq<char>) -> int {
    if has_point(t) {
        int_end(t) + 1
    } else {
        int_end(t)
    }
}

pub open spec fn frac_end(t: Seq<char>) -> int {
    if has_point(t) {
        digit_run(t, frac_start(t))
    } else {
        frac_start(t)
    }
}

pub open spec fn has_exponent(t: Seq<char>) -> bool {
    frac_end(t) < t.len()
}

pub open spec fn exp_digits_start(t: Seq<char>) -> int {
    let q = frac_end(t) + 1;
    if q < t.len() && (t[q] == '+' || t[q] == '-') {
        q + 1
    } else {
        q
    }
}

pub open spec fn exp_negative(t: Seq<char>) -> bool {
    exp_digits_start(t) == frac_end(t) + 2 && t[frac_end(t) + 1] == '-'
}

/// Whether `t` is a decimal literal in standard syntax.
pub open spec fn is_literal(t: Seq<char>) -> bool {
    &&& int_end(t) > sign_len(t) || frac_end(t) > frac_start(t)
    &&& has_exponent(t) ==> {
        &&& t[frac_end(t)] == 'e' || t[frac_end(t)] == 'E'
        &&& exp_digits_start(t) < t.len()
        &&& digit_run(t, exp_digits_start(t)) == t.len()
    }
}

pub open spec fn mantissa_digits(t: Seq<char>) -> Seq<char> {
    t.subrange(sign_len(t), int_end(t)) + t.subrange(frac_start(t), frac_end(t))
}

pub open spec fn exponent(t: Seq<char>) -> int {
    if !has_exponent(t) {
        0
    } else {
        let v = digits_value(t.subrange(exp_digits_start(t), t.len() as int)) as int;
        if exp_negative(t) {
            -v
        } else {
            v
        }
    }
}

/// `n` times ten to the power `k`, rounded to an integer with halves rounded
/// away from zero.
pub open spec fn scaled(n: nat, k: int) -> int {
    if k >= 0 {
        (n * pow10(k as nat)) as int
    } else {
        round_div(n as int, pow10((-k) as nat) as int)
    }
}

/// The value of the literal `t` in millionths, rounded to the nearest one.
pub open spec fn literal_units(t: Seq<char>) -> int {
    let shift = exponent(t) - (frac_end(t) - frac_start(t)) + 6;
    let m = scaled(digits_value(mantissa_digits(t)), shift);
    if sign_len(t) == 1 && t[0] == '-' {
        -m
    } else {
        m
    }
}

/// Whether `t` spells the lower-case word `w`, letters in either case.
pub open spec fn spells(t: Seq<char>, w: Seq<char>) -> bool {
    t.len() == w.len() && forall|i: int|
        0 <= i < t.len() ==> t[i] == w[i] || (t[i] as u32) + 32 == (w[i] as u32)
}

/// Whether `t` names infinity or not-a-number, which standard decimal
/// syntax also admits, after an optional sign.
pub open spec fn is_non_finite_word(t: Seq<char>) -> bool {
    let w = t.subrange(sign_len(t), t.len() as int);
    spells(w, "inf"@) || spells(w, "infinity"@) || spells(w, "nan"@)
}

// ---- facts on digits and powers of ten ----

pub proof fn lemma_pow10_positive(n: nat)
    ensures
        pow10(n) >= 1,
    decreases n,
{
    if n > 0 {
        lemma_pow10_positive((n - 1) as nat);
    }
}

proof fn lemma_pow10_add(a: nat, b: nat)
    ensures
        pow10(a + b) == pow10(a) * pow10(b),
    decreases b,
{
    if b > 0 {
        let b1 = (b - 1) as nat;
        lemma_pow10_add(a, b1);
        let x = pow10(a);
        let y = pow10(b1);
        assert(pow10(a + b) == 10 * pow10(a + b1));
        assert(pow10(b) == 10 * y);
        assert(10 * (x * y) == x * (10 * y)) by (nonlinear_arith);
    } else {
        assert(pow10(b) == 1);
        assert(a + b == a);
    }
}

proof fn lemma_pow10_monotone(a: nat, b: nat)
    requires
        a <= b,
    ensures
        pow10(a) <= pow10(b),
    decreases b,
{
    if a < b {
        lemma_pow10_monotone(a, (b - 1) as nat);
        lemma_pow10_positive((b - 1) as nat);
    }
}

proof fn lemma_digits_bound(s: Seq<char>)
    requires
        forall|i: int| 0 <= i < s.len() ==> is_digit(#[trigger] s[i]),
    ensures
        digits_value(s) < pow10(s.len()),
    decreases s.len(),
{
    if s.len() > 0 {
        let p = s.drop_last();
        assert forall|i: int| 0 <= i < p.len() implies is_digit(#[trigger] p[i]) by {
            assert(p[i] == s[i]);
        }
        lemma_digits_bound(p);
        assert(is_digit(s[s.len() - 1]));
        assert(digits_value(p) + 1 <= pow10(p.len()));
        assert(digits_value(s) == digits_value(p) * 10 + digit_of(s.last()));
        assert(digits_value(p) * 10 + 10 <= pow10(p.len()) * 10) by (nonlinear_arith)
            requires
                digits_value(p) + 1 <= pow10(p.len()),
        ;
    }
}

proof fn lemma_digits_concat(a: Seq<char>, b: Seq<char>)
    ensures
        digits_value(a + b) == digits_value(a) * pow10(b.len()) + digits_value(b),
    decreases b.len(),
{
    if b.len() == 0 {
        assert(a + b =~= a);
        assert(pow10(b.len()) == 1);
    } else {
        let b0 = b.drop_last();
        lemma_digits_concat(a, b0);
        assert((a + b).drop_last() =~= a + b0);
        assert((a + b).last() == b.last());
        let x = digits_value(a);
        let y = digits_value(b0);
        let p = pow10(b0.len());
        assert(pow10(b.len()) == 10 * p);
        assert(digits_value(a + b) == digits_value(a + b0) * 10 + digit_of(b.last()));
        assert(digits_value(b) == y * 10 + digit_of(b.last()));
        assert((x * p + y) * 10 + digit_of(b.last()) == x * (10 * p) + (y * 10 + digit_of(
            b.last(),
        ))) by (nonlinear_arith);
    }
}

proof fn lemma_digits_monotone(s: Seq<char>, i: int, j: int)
    requires
        0 <= i <= j <= s.len(),
    ensures
        digits_value(s.subrange(0, i)) <= digits_value(s.subrange(0, j)),
    decreases j - i,
{
    if i < j {
        lemma_digits_monotone(s, i, j - 1);
        assert(s.subrange(0, j).drop_last() =~= s.subrange(0, j - 1));
    }
}

/// Rounding `p * q + r` divided by `q`, for a remainder `r` below `q`.
proof fn lemma_round_split(p: int, q: int, r: int)
    requires
        p >= 0,
        q > 0,
        0 <= r < q,
    ensures
        round_div(p * q + r, q) == p + if 2 * r >= q {
            1int
        } else {
            0int
        },
{
    let x = 2 * (p * q + r) + q;
    let z = p + if 2 * r >= q {
        1int
    } else {
        0int
    };
    let rem = x - z * (2 * q);
    assert(p * q >= 0) by (nonlinear_arith)
        requires
            p >= 0,
            q > 0,
    ;
    if 2 * r >= q {
        assert(z * (2 * q) == 2 * (p * q) + 2 * q) by (nonlinear_arith)
            requires
                z == p + 1,
        ;
    } else {
        assert(z * (2 * q) == 2 * (p * q)) by (nonlinear_arith)
            requires
                z == p,
        ;
    }
    assert(0 <= rem < 2 * q);
    vstd::arithmetic::div_mod::lemma_fundamental_div_mod_converse(x, 2 * q, z, rem);
}

proof fn lemma_round_digit(s: Seq<char>)
    requires
        s.len() > 0,
        forall|i: int| 0 <= i < s.len() ==> is_digit(#[trigger] s[i]),
    ensures
        2 * digits_value(s) >= pow10(s.len()) <==> digit_of(s[0]) >= 5,
{
    let head = seq![s[0]];
    let rest = s.drop_first();
    assert(s =~= head + rest);
    lemma_digits_concat(head, rest);
    assert(head.drop_last() =~= Seq::<char>::empty());
    assert(head.last() == s[0]);
    assert(digits_value(Seq::<char>::empty()) == 0);
    assert(digits_value(head) == digit_of(s[0]));
    assert forall|i: int| 0 <= i < rest.len() implies is_digit(#[trigger] rest[i]) by {
        assert(rest[i] == s[i + 1]);
    }
    lemma_digits_bound(rest);
    let p = pow10(rest.len());
    let d = digit_of(s[0]);
    let r = digits_value(rest);
    assert(pow10(s.len()) == 10 * p);
    assert(is_digit(s[0]));
    if d >= 5 {
        assert(2 * (d * p + r) >= 10 * p) by (nonlinear_arith)
            requires
                d >= 5,
                r >= 0,
                p >= 0,
        ;
    } else {
        assert(2 * (d * p + r) < 10 * p) by (nonlinear_arith)
            requires
                d <= 4,
                r < p,
                r >= 0,
        ;
    }
}

/// A value below `10^d`, divided by `10^q` for `q > d`, rounds to zero.
proof fn lemma_small_vanishes(n: nat, d: nat, q: nat)
    requires
        n < pow10(d),
        q > d,
    ensures
        round_div(n as int, pow10(q) as int) == 0,
{
    lemma_pow10_monotone(d + 1, q);
    assert(pow10(d + 1) == 10 * pow10(d));
    lemma_round_split(0, pow10(q) as int, n as int);
}

/// A positive value times `10^k`, for `k` of sixteen or more, exceeds the range.
proof fn lemma_large_exceeds(n: nat, k: nat)
    requires
        n >= 1,
        k >= 16,
    ensures
        n * pow10(k) > MAX_UNITS,
{
    reveal_with_fuel(pow10, 17);
    lemma_pow10_monotone(16, k);
    assert(n * pow10(k) >= pow10(k)) by (nonlinear_arith)
        requires
            n >= 1,
            pow10(k) >= 0,
    ;
}

pub fn digit(c: char) -> (r: bool)
    ensures
        r == is_digit(c),
{
    let v = c as u32;
    0x30 <= v && v <= 0x39
}

fn digit_run_exec(t: &str, n: usize, from: usize) -> (r: usize)
    requires
        n == t@.len(),
        from <= n,
    ensures
        r == digit_run(t@, from as int),
        from <= r <= n,
        forall|i: int| from <= i < r ==> is_digit(#[trigger] t@[i]),
{
    let mut j = from;
    while j < n && digit(t.get_char(j))
        invariant
            n == t@.len(),
            from <= j <= n,
            digit_run(t@, from as int) == digit_run(t@, j as int),
            forall|i: int| from <= i < j ==> is_digit(#[trigger] t@[i]),
        decreases n - j,
    {
        j = j + 1;
    }
    j
}

/// Whether the digits `t[a..b]` have a value above `cap`, and their value
/// where it is not.
fn digits_capped(t: &str, a: usize, b: usize, cap: u64) -> (r: (bool, u64))
    requires
        a <= b <= t@.len(),
        cap <= MAX_UNITS,
        forall|i: int| a <= i < b ==> is_digit(#[trigger] t@[i]),
    ensures
        r.0 <==> digits_value(t@.subrange(a as int, b as int)) > cap,
        !r.0 ==> r.1 == digits_value(t@.subrange(a as int, b as int)),
{
    let mut over = false;
    let mut acc: u64 = 0;
    let mut i = a;
    assert(t@.subrange(a as int, a as int) =~= Seq::<char>::empty());
    while i < b
        invariant
            a <= i <= b <= t@.len(),
            cap <= MAX_UNITS,
            forall|j: int| a <= j < b ==> is_digit(#[trigger] t@[j]),
            over <==> digits_value(t@.subrange(a as int, i as int)) > cap,
            !over ==> acc == digits_value(t@.subrange(a as int, i as int)) && acc <= cap,
        decreases b - i,
    {
        let ghost before = t@.subrange(a as int, i as int);
        let ghost after = t@.subrange(a as int, i + 1);
        assert(after.drop_last() =~= before);
        assert(after.last() == t@[i as int]);
        assert(is_digit(t@[i as int]));
        if !over {
            let c = t.get_char(i);
            let d = (c as u32 - 0x30) as u64;
            let next = acc * 10 + d;
            if next > cap {
                over = true;
            } else {
                acc = next;
            }
        }
        i = i + 1;
    }
    (over, acc)
}

/// `scaled(digits_value(m), k)`, or `None` where it exceeds `MAX_UNITS`.
fn scale_mantissa(m: &str, k: i64) -> (r: Option<u64>)
    requires
        m@.len() <= 200,
        -2_000_000 <= k <= 2_000_000,
        forall|i: int| 0 <= i < m@.len() ==> is_digit(#[trigger] m@[i]),
    ensures
        r is None <==> scaled(digits_value(m@), k as int) > MAX_UNITS,
        r matches Some(v) ==> v == scaled(digits_value(m@), k as int),
{
    let d = m.unicode_len();
    let ghost n = digits_value(m@);
    assert(m@.subrange(0, d as int) =~= m@);
    if k >= 0 {
        let (over, v) = digits_capped(m, 0, d, MAX_UNITS as u64);
        if over {
            proof {
                lemma_pow10_positive(k as nat);
                assert(n * pow10(k as nat) >= n) by (nonlinear_arith)
                    requires
                        pow10(k as nat) >= 1,
                ;
            }
            return None;
        }
        if v == 0 {
            assert(n * pow10(k as nat) == 0) by (nonlinear_arith)
                requires
                    n == 0,
            ;
            return Some(0);
        }
        let mut acc: u64 = v;
        let mut big = false;
        assert(pow10(0) == 1);
        assert(n * pow10(0) == n);
        let mut i: i64 = 0;
        while i < k && !big
            invariant
                0 <= i <= k,
                n >= 1,
                !big ==> acc == n * pow10(i as nat) && acc <= MAX_UNITS,
                big ==> n * pow10(i as nat) > MAX_UNITS,
            decreases k - i,
        {
            let ghost p = pow10(i as nat);
            assert(pow10((i + 1) as nat) == 10 * p);
            assert(n * (10 * p) == 10 * (n * p)) by (nonlinear_arith);
            let next = acc * 10;
            if next > MAX_UNITS as u64 {
                big = true;
            } else {
                acc = next;
            }
            i = i + 1;
        }
        if big {
            proof {
                lemma_pow10_monotone(i as nat, k as nat);
                assert(n * pow10(i as nat) <= n * pow10(k as nat)) by (nonlinear_arith)
                    requires
                        pow10(i as nat) <= pow10(k as nat),
                ;
            }
            None
        } else {
            Some(acc)
        }
    } else {
        let q: usize = (-k) as usize;
        proof {
            lemma_digits_bound(m@);
        }
        if q > d {
            proof {
                lemma_small_vanishes(n, d as nat, q as nat);
            }
            return Some(0);
        }
        let keep = d - q;
        let (over, p) = digits_capped(m, 0, keep, MAX_UNITS as u64);
        let ghost head = m@.subrange(0, keep as int);
        let ghost tail = m@.subrange(keep as int, d as int);
        proof {
            assert(m@ =~= head + tail);
            lemma_digits_concat(head, tail);
            assert forall|i: int| 0 <= i < tail.len() implies is_digit(#[trigger] tail[i]) by {
                assert(tail[i] == m@[keep + i]);
            }
            lemma_digits_bound(tail);
            lemma_round_digit(tail);
            assert(tail[0] == m@[keep as int]);
            lemma_round_split(
                digits_value(head) as int,
                pow10(q as nat) as int,
                digits_value(tail) as int,
            );
        }
        if over {
            return None;
        }
        let up: u64 = if m.get_char(keep) as u32 >= 0x35 {
            1
        } else {
            0
        };
        let res = p + up;
        if res > MAX_UNITS as u64 {
            None
        } else {
            Some(res)
        }
    }
}

/// Exponents whose digits exceed this are read no further: the value is then
/// either zero or out of range.
const EXPONENT_CAP: u64 = 1_000_000;

enum Literal {
    Malformed,
    TooLarge,
    Units(i64),
}

/// The positions of sign, integer digits, point and fraction digits in `c`.
fn scan_layout(c: &str) -> (r: (usize, usize, usize, usize))
    ensures
        r.0 == sign_len(c@),
        r.1 == int_end(c@),
        r.2 == frac_start(c@),
        r.3 == frac_end(c@),
        r.0 <= r.1 <= r.2 <= r.3 <= c@.len(),
        forall|j: int| r.0 <= j < r.1 ==> is_digit(#[trigger] c@[j]),
        forall|j: int| r.2 <= j < r.3 ==> is_digit(#[trigger] c@[j]),
{
    let n = c.unicode_len();
    let s0: usize = if n > 0 && (c.get_char(0) == '+' || c.get_char(0) == '-') {
        1
    } else {
        0
    };
    let ie = digit_run_exec(c, n, s0);
    let point = ie < n && c.get_char(ie) == '.';
    let fs = if point {
        ie + 1
    } else {
        ie
    };
    let fe = if point {
        digit_run_exec(c, n, fs)
    } else {
        fs
    };
    (s0, ie, fs, fe)
}

/// The exponent part of `c`, which starts at `fe`: `None` where it is
/// malformed, else whether it is negative, whether its digits exceed the
/// cap, and their value where they do not.
fn read_exponent(c: &str, fe: usize) -> (r: Option<(bool, bool, u64)>)
    requires
        fe == frac_end(c@),
        fe <= c@.len(),
    ensures
        r is None <==> has_exponent(c@) && !({
            &&& c@[frac_end(c@)] == 'e' || c@[frac_end(c@)] == 'E'
            &&& exp_digits_start(c@) < c@.len()
            &&& digit_run(c@, exp_digits_start(c@)) == c@.len()
        }),
        r matches Some(e) ==> {
            let ev = if has_exponent(c@) {
                digits_value(c@.subrange(exp_digits_start(c@), c@.len() as int)) as int
            } else {
                0int
            };
            &&& exponent(c@) == if e.0 {
                -ev
            } else {
                ev
            }
            &&& e.1 <==> ev > EXPONENT_CAP
            &&& !e.1 ==> e.2 == ev
        },
{
    let n = c.unicode_len();
    if fe == n {
        return Some((false, false, 0));
    }
    let ch = c.get_char(fe);
    if ch != 'e' && ch != 'E' {
        return None;
    }
    let q = fe + 1;
    let es = if q < n && (c.get_char(q) == '+' || c.get_char(q) == '-') {
        q + 1
    } else {
        q
    };
    if es >= n {
        return None;
    }
    let ee = digit_run_exec(c, n, es);
    if ee != n {
        return None;
    }
    let neg = es == q + 1 && c.get_char(q) == '-';
    let (o, v) = digits_capped(c, es, n, EXPONENT_CAP);
    Some((neg, o, v))
}

/// The digits of the mantissa of `c`: its integer digits, then its fraction
/// digits.
fn mantissa_text(c: &str, s0: usize, ie: usize, fs: usize, fe: usize) -> (m: String)
    requires
        s0 == sign_len(c@),
        ie == int_end(c@),
        fs == frac_start(c@),
        fe == frac_end(c@),
        s0 <= ie <= fs <= fe <= c@.len(),
        forall|j: int| s0 <= j < ie ==> is_digit(#[trigger] c@[j]),
        forall|j: int| fs <= j < fe ==> is_digit(#[trigger] c@[j]),
    ensures
        m@ == mantissa_digits(c@),
        forall|j: int| 0 <= j < m@.len() ==> is_digit(#[trigger] m@[j]),
{
    let ghost t = c@;
    let mut m = String::new();
    let mut i = s0;
    while i < ie
        invariant
            s0 <= i <= ie <= t.len(),
            t == c@,
            m@ =~= t.subrange(s0 as int, i as int),
        decreases ie - i,
    {
        push_char(&mut m, c.get_char(i));
        i = i + 1;
    }
    let mut i = fs;
    while i < fe
        invariant
            fs <= i <= fe <= t.len(),
            t == c@,
            m@ =~= t.subrange(s0 as int, ie as int) + t.subrange(fs as int, i as int),
        decreases fe - i,
    {
        push_char(&mut m, c.get_char(i));
        i = i + 1;
    }
    let ghost digits = mantissa_digits(t);
    assert(m@ =~= digits);
    assert forall|j: int| 0 <= j < digits.len() implies is_digit(#[trigger] digits[j]) by {
        if j < ie - s0 {
            assert(digits[j] == t[s0 + j]);
        } else {
            assert(digits[j] == t[fs + j - (ie - s0)]);
        }
    }
    m
}

/// The magnitude `scaled(digits_value(m), shift)` where the exponent's
/// digits exceeded the cap: zero, or out of range.
fn capped_magnitude(m: &str, e_neg: bool, shift: Ghost<int>) -> (r: Option<u64>)
    requires
        m@.len() <= 100,
        forall|j: int| 0 <= j < m@.len() ==> is_digit(#[trigger] m@[j]),
        e_neg ==> shift@ < -EXPONENT_CAP + 7,
        !e_neg ==> shift@ > EXPONENT_CAP - 100,
    ensures
        r is None <==> scaled(digits_value(m@), shift@) > MAX_UNITS,
        r matches Some(v) ==> v == scaled(digits_value(m@), shift@),
{
    let ghost nv = digits_value(m@);
    if e_neg {
        proof {
            lemma_digits_bound(m@);
            lemma_small_vanishes(nv, m@.len(), (-shift@) as nat);
        }
        Some(0)
    } else {
        let d = m.unicode_len();
        assert(m@.subrange(0, d as int) =~= m@);
        let (o, v) = digits_capped(m, 0, d, MAX_UNITS as u64);
        if !o && v == 0 {
            assert(nv * pow10(shift@ as nat) == 0) by (nonlinear_arith)
                requires
                    nv == 0,
            ;
            Some(0)
        } else {
            proof {
                lemma_large_exceeds(nv, shift@ as nat);
            }
            None
        }
    }
}

fn read_literal(c: &str) -> (r: Literal)
    requires
        c@.len() <= 100,
    ensures
        r is Malformed <==> !is_literal(c@),
        r is TooLarge <==> is_literal(c@) && (literal_units(c@) > MAX_UNITS || literal_units(c@)
            < -MAX_UNITS),
        r matches Literal::Units(u) ==> u == literal_units(c@),
{
    let ghost t = c@;
    let (s0, ie, fs, fe) = scan_layout(c);
    if !(ie > s0 || fe > fs) {
        return Literal::Malformed;
    }
    let (e_neg, e_over, e_val) = match read_exponent(c, fe) {
        None => {
            return Literal::Malformed;
        },
        Some(e) => e,
    };
    let m = mantissa_text(c, s0, ie, fs, fe);
    let ghost shift = exponent(t) - (fe - fs) + 6;
    let mag: Option<u64> = if e_over {
        capped_magnitude(m.as_str(), e_neg, Ghost(shift))
    } else {
        let ev_exec: i64 = if e_neg {
            -(e_val as i64)
        } else {
            e_val as i64
        };
        let k: i64 = ev_exec - ((fe - fs) as i64) + 6;
        scale_mantissa(m.as_str(), k)
    };
    let neg = s0 == 1 && c.get_char(0) == '-';
    match mag {
        None => Literal::TooLarge,
        Some(v) => {
            if neg {
                Literal::Units(-(v as i64))
            } else {
                Literal::Units(v as i64)
            }
        },
    }
}

/// Whether `t[from..]` spells the lower-case ASCII word `w`.
fn spells_exec(t: &str, from: usize, w: &str) -> (r: bool)
    requires
        from <= t@.len(),
        w.is_ascii(),
    ensures
        r == spells(t@.subrange(from as int, t@.len() as int), w@),
{
    let ghost s = t@.subrange(from as int, t@.len() as int);
    let n = t.unicode_len();
    let m = w.unicode_len();
    if n - from != m {
        return false;
    }
    let mut i: usize = 0;
    while i < m
        invariant
            n == t@.len(),
            m == w@.len(),
            n - from == m,
            s == t@.subrange(from as int, n as int),
            0 <= i <= m,
            forall|j: int| 0 <= j < i ==> s[j] == w@[j] || (s[j] as u32) + 32 == (w@[j] as u32),
        decreases m - i,
    {
        let a = t.get_char(from + i);
        let b = w.get_char(i);
        if !(a == b || (a as u32) + 32 == (b as u32)) {
            return false;
        }
        i = i + 1;
    }
    true
}

fn non_finite_word(c: &str) -> (r: bool)
    ensures
        r == is_non_finite_word(c@),
{
    let n = c.unicode_len();
    let s0: usize = if n > 0 && (c.get_char(0) == '+' || c.get_char(0) == '-') {
        1
    } else {
        0
    };
    proof {
        reveal_strlit("inf");
        reveal_strlit("infinity");
        reveal_strlit("nan");
    }
    spells_exec(c, s0, "inf") || spells_exec(c, s0, "infinity") || spells_exec(c, s0, "nan")
}

/// What parsing the text `s` gives: its value in millionths, or the error
/// message.
pub open spec fn number_outcome(s: Seq<char>) -> Result<int, Seq<char>> {
    let t = trimmed(s);
    let c = undecorated(t);
    if !security_ok(t) {
        Err(security_message(t, "number"@))
    } else if t.len() == 0 {
        Err("Empty string cannot be parsed as number"@)
    } else if is_non_finite_word(c) {
        Err("Invalid number: '"@ + echo_of(t) + "'"@)
    } else if !is_literal(c) {
        Err("Cannot parse '"@ + echo_of(t) + "' as a number"@)
    } else if literal_units(c) > MAX_UNITS || literal_units(c) < -MAX_UNITS {
        Err("Invalid number: '"@ + echo_of(t) + "'"@)
    } else {
        Ok(literal_units(c))
    }
}

proof fn lemma_undecorated_len(s: Seq<char>)
    ensures
        undecorated(s).len() <= s.len(),
    decreases s.len(),
{
    if s.len() > 0 {
        lemma_undecorated_len(s.drop_last());
    }
}

/// Reads a number written in decimal, possibly decorated with separators,
/// currency symbols or a percent sign, to the nearest millionth.
pub fn parse_number(s: &str) -> (r: Result<Fixed, String>)
    ensures
        r is Ok <==> number_outcome(s@) is Ok,
        r matches Ok(f) ==> number_outcome(s@) == Ok::<int, Seq<char>>(f@),
        r matches Err(m) ==> number_outcome(s@) == Err::<int, Seq<char>>(m@),
{
    let t = trim_text(s);
    match validate_input_security(t, "number") {
        Err(m) => {
            return Err(m);
        },
        Ok(()) => {},
    }
    if t.unicode_len() == 0 {
        return Err(String::from_str("Empty string cannot be parsed as number"));
    }
    let cleaned = strip_decorations(t);
    proof {
        lemma_undecorated_len(t@);
    }
    if non_finite_word(cleaned.as_str()) {
        let mut m = String::from_str("Invalid number: '");
        m.append(sanitize_for_error_message(t).as_str());
        m.append("'");
        return Err(m);
    }
    match read_literal(cleaned.as_str()) {
        Literal::Malformed => {
            let mut m = String::from_str("Cannot parse '");
            m.append(sanitize_for_error_message(t).as_str());
            m.append("' as a number");
            Err(m)
        },
        Literal::TooLarge => {
            let mut m = String::from_str("Invalid number: '");
            m.append(sanitize_for_error_message(t).as_str());
            m.append("'");
            Err(m)
        },
        Literal::Units(u) => {
            match Fixed::from_units(u) {
                Some(f) => Ok(f),
                None => {
                    let mut m = String::from_str("Invalid number: '");
                    m.append(sanitize_for_error_message(t).as_str());
                    m.append("'");
                    Err(m)
                },
            }
        },
    }
}

proof fn lemma_undecorated_keeps(s: Seq<char>)
    ensures
        undecorated(s).len() <= s.len(),
        control_count(undecorated(s)) <= control_count(s),
        undecorated(s).contains('\0') ==> s.contains('\0'),
    decreases s.len(),
{
    if s.len() > 0 {
        let p = s.drop_last();
        lemma_undecorated_keeps(p);
        if undecorated(s).contains('\0') {
            let k = choose|k: int| 0 <= k < undecorated(s).len() && undecorated(s)[k] == '\0';
            if k < undecorated(p).len() {
                assert(undecorated(p)[k] == '\0');
                let j = choose|j: int| 0 <= j < p.len() && p[j] == '\0';
                assert(s[j] == '\0');
            } else {
                assert(s.last() == '\0');
                assert(s[s.len() - 1] == '\0');
            }
        }
        if !is_decoration(s.last()) {
            let u = undecorated(p).push(s.last());
            assert(u.drop_last() =~= undecorated(p));
        }
    }
}

proof fn lemma_clean_is_undecorated(s: Seq<char>)
    requires
        forall|i: int| 0 <= i < s.len() ==> !is_decoration(#[trigger] s[i]),
    ensures
        undecorated(s) == s,
    decreases s.len(),
{
    if s.len() > 0 {
        let p = s.drop_last();
        assert forall|i: int| 0 <= i < p.len() implies !is_decoration(#[trigger] p[i]) by {
            assert(p[i] == s[i]);
        }
        lemma_clean_is_undecorated(p);
        assert(!is_decoration(s[s.len() - 1]));
        assert(p.push(s.last()) =~= s);
    }
}

/// Decorations do not change a number: a clean numeric text and the same
/// text with separators, currency symbols or percent signs added read as the
/// same value, whenever the decorated text passes the input checks.
pub proof fn lemma_decorations_ignored(clean: Seq<char>, decorated: Seq<char>)
    requires
        trimmed(clean).len() > 0,
        forall|i: int|
            0 <= i < trimmed(clean).len() ==> !is_decoration(#[trigger] trimmed(clean)[i]),
        undecorated(trimmed(decorated)) == trimmed(clean),
        security_ok(trimmed(decorated)),
    ensures
        number_outcome(clean) is Ok <==> number_outcome(decorated) is Ok,
        number_outcome(clean) is Ok ==> number_outcome(clean) == number_outcome(decorated),
{
    let t = trimmed(clean);
    lemma_clean_is_undecorated(t);
    lemma_undecorated_keeps(trimmed(decorated));
}

} // verus!
