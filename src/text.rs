use vstd::prelude::*;
use vstd::string::{StrSliceExecFns, StringExecFns};

use crate::parse::{lemma_pow10_positive, pow10};

verus! {

/// Unicode `White_Space`, the characters that trimming removes.
pub open spec fn is_white_space(c: char) -> bool {
    let v = c as u32;
    (0x9 <= v <= 0xd) || v == 0x20 || v == 0x85 || v == 0xa0 || v == 0x1680 || (0x2000 <= v
        <= 0x200a) || v == 0x2028 || v == 0x2029 || v == 0x202f || v == 0x205f || v == 0x3000
}

/// Unicode general category `Cc`.
pub open spec fn is_control(c: char) -> bool {
    let v = c as u32;
    v <= 0x1f || (0x7f <= v <= 0x9f)
}

/// Printable ASCII other than the space.
pub open spec fn is_ascii_graphic(c: char) -> bool {
    let v = c as u32;
    0x21 <= v <= 0x7e
}

/// The characters a number may be decorated with: separators, currency
/// symbols and the percent sign.
pub open spec fn is_decoration(c: char) -> bool {
    c == ',' || c == '$' || c == '€' || c == '£' || c == '¥' || c == '%'
}

pub open spec fn trim_start(s: Seq<char>) -> Seq<char>
    decreases s.len(),
{
    if s.len() > 0 && is_white_space(s[0]) {
        trim_start(s.drop_first())
    } else {
        s
    }
}

pub open spec fn trim_end(s: Seq<char>) -> Seq<char>
    decreases s.len(),
{
    if s.len() > 0 && is_white_space(s.last()) {
        trim_end(s.drop_last())
    } else {
        s
    }
}

/// `s` without its leading and trailing white space.
pub open spec fn trimmed(s: Seq<char>) -> Seq<char> {
    trim_end(trim_start(s))
}

/// The number of control characters in `s`.
pub open spec fn control_count(s: Seq<char>) -> nat
    decreases s.len(),
{
    if s.len() == 0 {
        0
    } else {
        control_count(s.drop_last()) + if is_control(s.last()) {
            1nat
        } else {
            0nat
        }
    }
}

/// `s` with every decoration character removed.
pub open spec fn undecorated(s: Seq<char>) -> Seq<char>
    decreases s.len(),
{
    if s.len() == 0 {
        s
    } else if is_decoration(s.last()) {
        undecorated(s.drop_last())
    } else {
        undecorated(s.drop_last()).push(s.last())
    }
}

/// What a character of an echoed input becomes.
pub open spec fn echo_char(c: char) -> char {
    if c == '\n' || c == '\r' || c == '\t' {
        ' '
    } else if c == '"' || c == '\'' || c == '`' || c == '\\' || c == '<' || c == '>' {
        '?'
    } else if is_ascii_graphic(c) || c == ' ' {
        c
    } else {
        '?'
    }
}

/// The part of an input that an error message echoes: all of it up to fifty
/// characters, else its first forty-seven and an ellipsis.
pub open spec fn echo_source(s: Seq<char>) -> Seq<char> {
    if s.len() > 50 {
        s.subrange(0, 47) + seq!['.', '.', '.']
    } else {
        s
    }
}

/// The sanitized echo of `s`.
pub open spec fn echo_of(s: Seq<char>) -> Seq<char> {
    echo_source(s).map_values(|c: char| echo_char(c))
}

/// The reasons an input text is refused before it is read as a number.
pub open spec fn security_ok(s: Seq<char>) -> bool {
    s.len() <= 100 && !s.contains('\0') && control_count(s) <= 2
}

/// Relies on `String::push`: appends one character.
#[verifier::external_body]
pub(crate) fn push_char(s: &mut String, c: char)
    ensures
        final(s)@ == old(s)@.push(c),
{
    s.push(c)
}

pub fn white_space(c: char) -> (r: bool)
    ensures
        r == is_white_space(c),
{
    let v = c as u32;
    (0x9 <= v && v <= 0xd) || v == 0x20 || v == 0x85 || v == 0xa0 || v == 0x1680 || (0x2000 <= v
        && v <= 0x200a) || v == 0x2028 || v == 0x2029 || v == 0x202f || v == 0x205f || v == 0x3000
}

pub fn control(c: char) -> (r: bool)
    ensures
        r == is_control(c),
{
    let v = c as u32;
    v <= 0x1f || (0x7f <= v && v <= 0x9f)
}

pub fn decoration(c: char) -> (r: bool)
    ensures
        r == is_decoration(c),
{
    c == ',' || c == '$' || c == '€' || c == '£' || c == '¥' || c == '%'
}

pub fn sanitize_char(c: char) -> (r: char)
    ensures
        r == echo_char(c),
{
    let v = c as u32;
    if c == '\n' || c == '\r' || c == '\t' {
        ' '
    } else if c == '"' || c == '\'' || c == '`' || c == '\\' || c == '<' || c == '>' {
        '?'
    } else if (0x21 <= v && v <= 0x7e) || c == ' ' {
        c
    } else {
        '?'
    }
}

proof fn lemma_trim_start_skip(s: Seq<char>, i: int)
    requires
        0 <= i < s.len(),
        is_white_space(s[i]),
    ensures
        trim_start(s.subrange(i, s.len() as int)) == trim_start(s.subrange(i + 1, s.len() as int)),
{
    assert(s.subrange(i, s.len() as int).drop_first() =~= s.subrange(i + 1, s.len() as int));
}

proof fn lemma_trim_end_skip(s: Seq<char>, j: int)
    requires
        0 < j <= s.len(),
        is_white_space(s[j - 1]),
    ensures
        trim_end(s.subrange(0, j)) == trim_end(s.subrange(0, j - 1)),
{
    assert(s.subrange(0, j).drop_last() =~= s.subrange(0, j - 1));
}

/// `s` without its leading and trailing white space.
pub fn trim_text(s: &str) -> (r: &str)
    ensures
        r@ == trimmed(s@),
{
    let n = s.unicode_len();
    let mut i: usize = 0;
    assert(s@.subrange(0, n as int) =~= s@);
    while i < n && white_space(s.get_char(i))
        invariant
            n == s@.len(),
            0 <= i <= n,
            trim_start(s@) == trim_start(s@.subrange(i as int, n as int)),
        decreases n - i,
    {
        proof {
            lemma_trim_start_skip(s@, i as int);
        }
        i = i + 1;
    }
    let ghost rest = s@.subrange(i as int, n as int);
    assert(trim_start(s@) == rest) by {
        assert(s@.subrange(0, n as int) =~= s@);
        if rest.len() > 0 {
            assert(rest[0] == s@[i as int]);
        }
    }
    let mut j: usize = n;
    assert(rest.subrange(0, (n - i) as int) =~= rest);
    while j > i && white_space(s.get_char(j - 1))
        invariant
            n == s@.len(),
            i <= j <= n,
            rest == s@.subrange(i as int, n as int),
            trim_end(rest) == trim_end(rest.subrange(0, j - i)),
        decreases j,
    {
        proof {
            lemma_trim_end_skip(rest, (j - i) as int);
        }
        j = j - 1;
    }
    let r = s.substring_char(i, j);
    assert(r@ =~= rest.subrange(0, j - i));
    proof {
        let t = rest.subrange(0, (j - i) as int);
        assert(rest.subrange(0, (n - i) as int) =~= rest);
        if t.len() > 0 {
            assert(t.last() == s@[j - 1]);
        }
    }
    r
}

/// The message with which `validate_input_security` refuses `s` for the
/// field named `field`.
pub open spec fn security_message(s: Seq<char>, field: Seq<char>) -> Seq<char> {
    if s.len() > 100 {
        "Invalid "@ + field + ": input too long (max 100 characters)"@
    } else if s.contains('\0') {
        "Invalid "@ + field + ": input contains null bytes"@
    } else {
        "Invalid "@ + field + ": input contains too many control characters"@
    }
}

proof fn lemma_prefix_step(s: Seq<char>, i: int)
    requires
        0 <= i < s.len(),
    ensures
        s.subrange(0, i + 1).drop_last() == s.subrange(0, i),
        s.subrange(0, i + 1).last() == s[i],
{
    assert(s.subrange(0, i + 1).drop_last() =~= s.subrange(0, i));
}

/// Refuses an input longer than a hundred characters, one holding a null
/// character, or one holding more than two control characters.
pub fn validate_input_security(input: &str, field_name: &str) -> (r: Result<(), String>)
    ensures
        r is Ok <==> security_ok(input@),
        r matches Err(m) ==> m@ == security_message(input@, field_name@),
{
    let n = input.unicode_len();
    if n > 100 {
        let mut m = String::from_str("Invalid ");
        m.append(field_name);
        m.append(": input too long (max 100 characters)");
        return Err(m);
    }
    let mut nul = false;
    let mut count: usize = 0;
    let mut i: usize = 0;
    while i < n
        invariant
            n == input@.len() <= 100,
            0 <= i <= n,
            count <= i,
            count == control_count(input@.subrange(0, i as int)),
            nul == input@.subrange(0, i as int).contains('\0'),
        decreases n - i,
    {
        let c = input.get_char(i);
        proof {
            lemma_prefix_step(input@, i as int);
            let p = input@.subrange(0, i as int);
            let q = input@.subrange(0, i + 1);
            if q.contains('\0') && !p.contains('\0') {
                let k = choose|k: int| 0 <= k < q.len() && q[k] == '\0';
                if k < i {
                    assert(p[k] == '\0');
                }
            }
            if p.contains('\0') {
                let k = choose|k: int| 0 <= k < p.len() && p[k] == '\0';
                assert(q[k] == '\0');
            }
            if c == '\0' {
                assert(q[i as int] == '\0');
            }
        }
        if c == '\0' {
            nul = true;
        }
        if control(c) {
            count = count + 1;
        }
        i = i + 1;
    }
    assert(input@.subrange(0, n as int) =~= input@);
    if nul {
        let mut m = String::from_str("Invalid ");
        m.append(field_name);
        m.append(": input contains null bytes");
        return Err(m);
    }
    if count > 2 {
        let mut m = String::from_str("Invalid ");
        m.append(field_name);
        m.append(": input contains too many control characters");
        return Err(m);
    }
    Ok(())
}

/// The echo of an input that an error message may carry: at most fifty
/// characters, all of them printable ASCII other than quotes, backslashes
/// and angle brackets.
pub fn sanitize_for_error_message(input: &str) -> (r: String)
    ensures
        r@ == echo_of(input@),
{
    let n = input.unicode_len();
    let lim: usize = if n > 50 {
        47
    } else {
        n
    };
    let mut r = String::new();
    let mut i: usize = 0;
    while i < lim
        invariant
            n == input@.len(),
            lim <= n,
            0 <= i <= lim,
            r@ =~= input@.subrange(0, i as int).map_values(|c: char| echo_char(c)),
        decreases lim - i,
    {
        let c = input.get_char(i);
        push_char(&mut r, sanitize_char(c));
        i = i + 1;
    }
    if n > 50 {
        push_char(&mut r, '.');
        push_char(&mut r, '.');
        push_char(&mut r, '.');
        assert(r@ =~= echo_of(input@));
    } else {
        assert(input@.subrange(0, n as int) =~= input@);
    }
    r
}

/// `s` with every separator, currency symbol and percent sign removed.
pub fn strip_decorations(s: &str) -> (r: String)
    ensures
        r@ == undecorated(s@),
{
    let n = s.unicode_len();
    let mut r = String::new();
    let mut i: usize = 0;
    assert(s@.subrange(0, 0) =~= Seq::<char>::empty());
    while i < n
        invariant
            n == s@.len(),
            0 <= i <= n,
            r@ == undecorated(s@.subrange(0, i as int)),
        decreases n - i,
    {
        let c = s.get_char(i);
        proof {
            lemma_prefix_step(s@, i as int);
        }
        if !decoration(c) {
            push_char(&mut r, c);
        }
        i = i + 1;
    }
    assert(s@.subrange(0, n as int) =~= s@);
    r
}

/// An echoed input is safe to show: whatever the input, the echo is at most
/// fifty characters long and each of them is printable ASCII, never a
/// control character, a backslash, a quote or a backtick.
pub proof fn lemma_echo_is_safe(s: Seq<char>)
    ensures
        echo_of(s).len() <= 50,
        forall|i: int|
            0 <= i < echo_of(s).len() ==> {
                let c = #[trigger] echo_of(s)[i];
                &&& !is_control(c)
                &&& c != '\\' && c != '"' && c != '\'' && c != '`'
                &&& is_ascii_graphic(c) || c == ' '
            },
{
    assert forall|i: int| 0 <= i < echo_of(s).len() implies {
        let c = #[trigger] echo_of(s)[i];
        &&& !is_control(c)
        &&& c != '\\' && c != '"' && c != '\'' && c != '`'
        &&& is_ascii_graphic(c) || c == ' '
    } by {
        let c = echo_source(s)[i];
        assert(echo_of(s)[i] == echo_char(c));
    }
}

pub open spec fn digit_char(d: int) -> char {
    seq!['0', '1', '2', '3', '4', '5', '6', '7', '8', '9'][d]
}

/// The decimal digits of `n`, without leading zeros.
pub open spec fn decimal_digits(n: nat) -> Seq<char>
    decreases n,
{
    if n < 10 {
        seq![digit_char(n as int)]
    } else {
        decimal_digits(n / 10).push(digit_char((n % 10) as int))
    }
}

/// The last `width` decimal digits of `n`, with leading zeros.
pub open spec fn padded_digits(n: nat, width: nat) -> Seq<char>
    decreases width,
{
    if width == 0 {
        Seq::empty()
    } else {
        padded_digits(n / 10, (width - 1) as nat).push(digit_char((n % 10) as int))
    }
}

/// `k` hundredths, thousandths and so on, written with `places` digits after
/// the point and a minus sign where negative.
pub open spec fn fixed_text(k: int, places: nat) -> Seq<char> {
    let m = if k < 0 {
        -k
    } else {
        k
    };
    let sign = if k < 0 {
        seq!['-']
    } else {
        Seq::<char>::empty()
    };
    let p = pow10(places) as int;
    sign + decimal_digits((m / p) as nat) + seq!['.'] + padded_digits((m % p) as nat, places)
}

fn digit_to_char(d: u128) -> (c: char)
    requires
        d < 10,
    ensures
        c == digit_char(d as int),
{
    if d == 0 {
        '0'
    } else if d == 1 {
        '1'
    } else if d == 2 {
        '2'
    } else if d == 3 {
        '3'
    } else if d == 4 {
        '4'
    } else if d == 5 {
        '5'
    } else if d == 6 {
        '6'
    } else if d == 7 {
        '7'
    } else if d == 8 {
        '8'
    } else {
        '9'
    }
}

/// Appends the decimal digits of `n`.
pub fn push_decimal(s: &mut String, n: u128)
    ensures
        final(s)@ == old(s)@ + decimal_digits(n as nat),
    decreases n,
{
    if n >= 10 {
        push_decimal(s, n / 10);
    }
    push_char(s, digit_to_char(n % 10));
    assert(final(s)@ =~= old(s)@ + decimal_digits(n as nat));
}

fn push_padded(s: &mut String, n: u128, width: u32)
    ensures
        final(s)@ == old(s)@ + padded_digits(n as nat, width as nat),
    decreases width,
{
    if width > 0 {
        push_padded(s, n / 10, width - 1);
        push_char(s, digit_to_char(n % 10));
    }
    assert(final(s)@ =~= old(s)@ + padded_digits(n as nat, width as nat));
}

/// The decimal text of `n`.
pub fn decimal_text(n: u128) -> (r: String)
    ensures
        r@ == decimal_digits(n as nat),
{
    let mut s = String::new();
    push_decimal(&mut s, n);
    assert(s@ =~= decimal_digits(n as nat));
    s
}

/// `k` units of `10^-places`, as decimal text with `places` fraction digits.
pub fn fixed_point_text(k: i128, places: u32) -> (r: String)
    requires
        1 <= places <= 6,
    ensures
        r@ == fixed_text(k as int, places as nat),
{
    let mut p: u128 = 1;
    let mut i: u32 = 0;
    while i < places
        invariant
            i <= places <= 6,
            p == pow10(i as nat),
        decreases places - i,
    {
        proof {
            reveal_with_fuel(pow10, 7);
            assert(p <= 100_000) by {
                if i == 0 {
                } else if i == 1 {
                } else if i == 2 {
                } else if i == 3 {
                } else if i == 4 {
                } else {
                    assert(i == 5);
                }
            }
        }
        p = p * 10;
        i = i + 1;
    }
    proof {
        lemma_pow10_positive(places as nat);
    }
    let m: u128 = if k < 0 {
        (-(k + 1)) as u128 + 1
    } else {
        k as u128
    };
    let mut s = String::new();
    if k < 0 {
        push_char(&mut s, '-');
    }
    push_decimal(&mut s, m / p);
    push_char(&mut s, '.');
    push_padded(&mut s, m % p, places);
    assert(s@ =~= fixed_text(k as int, places as nat));
    s
}

} // verus!
