//! Number literals: decimal text to millionths, and counts.
use vstd::prelude::*;
use crate::lexer::{CharClass, class_contains, is_digit};

verus! {

pub open spec fn digit_value(c: char) -> int {
    (c as u32) as int - 48
}

pub open spec fn all_digits(s: Seq<char>) -> bool {
    forall|j: int| 0 <= j < s.len() ==> is_digit(#[trigger] s[j])
}

/// The number that a run of decimal digits denotes.
pub open spec fn digits_value(s: Seq<char>) -> int
    decreases s.len(),
{
    if s.len() == 0 {
        0
    } else {
        digits_value(s.drop_last()) * 10 + digit_value(s.last())
    }
}

pub open spec fn pow10(n: nat) -> int
    decreases n,
{
    if n == 0 {
        1
    } else {
        10 * pow10((n - 1) as nat)
    }
}

/// The position of the first `.` in `s` from `i`, or the length of `s`.
pub open spec fn dot_index(s: Seq<char>, i: int) -> int
    decreases s.len() - i,
{
    if 0 <= i < s.len() && s[i] != '.' {
        dot_index(s, i + 1)
    } else {
        i
    }
}

/// The millionths that an unsigned decimal denotes: one to twelve digits,
/// then optionally a `.` and one to six digits.
pub open spec fn magnitude_units(b: Seq<char>) -> Option<int> {
    let d = dot_index(b, 0);
    let ip = b.subrange(0, d);
    let fp = if d < b.len() {
        b.subrange(d + 1, b.len() as int)
    } else {
        seq![]
    };
    if 1 <= ip.len() <= 12 && all_digits(ip) && all_digits(fp) && fp.len() <= 6 && (d < b.len()
        ==> fp.len() >= 1) {
        Some(digits_value(ip) * 1_000_000 + digits_value(fp) * pow10((6 - fp.len()) as nat))
    } else {
        None
    }
}

/// The millionths that a number literal denotes, a leading `-` negating it;
/// `None` for text that is no such literal.
pub open spec fn number_units(t: Seq<char>) -> Option<int> {
    if t.len() > 0 && t[0] == '-' {
        match magnitude_units(t.drop_first()) {
            Some(m) => Some(-m),
            None => None,
        }
    } else {
        magnitude_units(t)
    }
}

/// The count that a literal denotes: one to eighteen digits, nothing else.
pub open spec fn count_value(t: Seq<char>) -> Option<int> {
    if 1 <= t.len() <= 18 && all_digits(t) {
        Some(digits_value(t))
    } else {
        None
    }
}

pub proof fn lemma_dot_index(s: Seq<char>, i: int)
    requires
        0 <= i <= s.len(),
    ensures
        i <= dot_index(s, i) <= s.len(),
        dot_index(s, i) < s.len() ==> s[dot_index(s, i)] == '.',
        forall|j: int| i <= j < dot_index(s, i) ==> #[trigger] s[j] != '.',
    decreases s.len() - i,
{
    if i < s.len() && s[i] != '.' {
        lemma_dot_index(s, i + 1);
    }
}

pub proof fn lemma_pow10(n: nat)
    ensures
        pow10(n) >= 1,
    decreases n,
{
    if n > 0 {
        lemma_pow10((n - 1) as nat);
    }
}

pub proof fn lemma_pow10_mono(n: nat, m: nat)
    requires
        n <= m,
    ensures
        pow10(n) <= pow10(m),
    decreases m - n,
{
    if n < m {
        lemma_pow10_mono(n, (m - 1) as nat);
        lemma_pow10((m - 1) as nat);
    }
}

pub proof fn lemma_pow10_add(a: nat, b: nat)
    ensures
        pow10(a + b) == pow10(a) * pow10(b),
    decreases a,
{
    if a > 0 {
        lemma_pow10_add((a - 1) as nat, b);
        assert(pow10(a + b) == 10 * pow10((a - 1 + b) as nat));
        assert(10 * (pow10((a - 1) as nat) * pow10(b)) == (10 * pow10((a - 1) as nat)) * pow10(b))
            by (nonlinear_arith);
    }
}

pub proof fn lemma_pow10_values()
    ensures
        pow10(6) == 1_000_000,
        pow10(12) == 1_000_000_000_000,
        pow10(18) == 1_000_000_000_000_000_000,
{
    reveal_with_fuel(pow10, 19);
}

/// The value of the digits `t[from..to]`.
pub fn digits_to_u64(t: &[char], from: usize, to: usize) -> (r: u64)
    requires
        from <= to <= t@.len(),
        to - from <= 18,
        all_digits(t@.subrange(from as int, to as int)),
    ensures
        r as int == digits_value(t@.subrange(from as int, to as int)),
        (r as int) < pow10((to - from) as nat),
{
    let mut acc: u64 = 0;
    let mut j: usize = from;
    proof {
        assert(t@.subrange(from as int, from as int).len() == 0);
    }
    while j < to
        invariant
            from <= j <= to,
            to <= t@.len(),
            to - from <= 18,
            all_digits(t@.subrange(from as int, to as int)),
            acc as int == digits_value(t@.subrange(from as int, j as int)),
            (acc as int) < pow10((j - from) as nat),
        decreases to - j,
    {
        let ghost prefix = t@.subrange(from as int, j as int);
        let ghost next = t@.subrange(from as int, j + 1);
        assert(next.drop_last() =~= prefix);
        assert(t@.subrange(from as int, to as int)[j - from] == t@[j as int]);
        assert(is_digit(t@[j as int]));
        let d = (t[j] as u32 - 48u32) as u64;
        proof {
            lemma_pow10((j - from) as nat);
            lemma_pow10((j + 1 - from) as nat);
            lemma_pow10_mono((j + 1 - from) as nat, 18);
            lemma_pow10_values();
            assert(acc * 10 + d < pow10((j + 1 - from) as nat)) by (nonlinear_arith)
                requires
                    (acc as int) < pow10((j - from) as nat),
                    pow10((j + 1 - from) as nat) == 10 * pow10((j - from) as nat),
                    d <= 9,
            ;
        }
        acc = acc * 10 + d;
        j = j + 1;
    }
    acc
}

/// Whether `t[from..to]` is all digits.
fn digits_only(t: &[char], from: usize, to: usize) -> (r: bool)
    requires
        from <= to <= t@.len(),
    ensures
        r == all_digits(t@.subrange(from as int, to as int)),
{
    let mut k: usize = from;
    while k < to
        invariant
            from <= k <= to,
            to <= t@.len(),
            forall|j: int| from <= j < k ==> is_digit(#[trigger] t@[j]),
        decreases to - k,
    {
        if !class_contains(t[k], CharClass::Digit) {
            assert(t@.subrange(from as int, to as int)[k - from] == t@[k as int]);
            return false;
        }
        k = k + 1;
    }
    assert forall|j: int| 0 <= j < to - from implies is_digit(
        #[trigger] t@.subrange(from as int, to as int)[j],
    ) by {
        assert(t@.subrange(from as int, to as int)[j] == t@[from + j]);
    }
    true
}

pub proof fn lemma_dot_index_shift(t: Seq<char>, start: int, j: int)
    requires
        0 <= start <= j <= t.len(),
    ensures
        dot_index(t.subrange(start, t.len() as int), j - start) == dot_index(t, j) - start,
    decreases t.len() - j,
{
    let b = t.subrange(start, t.len() as int);
    if j < t.len() {
        assert(b[j - start] == t[j]);
        if t[j] != '.' {
            lemma_dot_index_shift(t, start, j + 1);
        }
    }
}

/// The position of the first `.` in `t` from `from`, or the length of `t`.
fn find_dot(t: &[char], from: usize) -> (r: usize)
    requires
        from <= t@.len(),
    ensures
        r as int == dot_index(t@, from as int),
{
    let mut d: usize = from;
    while d < t.len() && t[d] != '.'
        invariant
            from <= d <= t@.len(),
            dot_index(t@, from as int) == dot_index(t@, d as int),
        decreases t@.len() - d,
    {
        d = d + 1;
    }
    d
}

/// Parses a number literal into millionths.
pub fn parse_number(t: &[char]) -> (r: Option<i64>)
    ensures
        match r {
            Some(n) => number_units(t@) == Some(n as int),
            None => number_units(t@) is None,
        },
{
    let neg = t.len() > 0 && t[0] == '-';
    let start: usize = if neg {
        1
    } else {
        0
    };
    let ghost b = t@.subrange(start as int, t@.len() as int);
    assert(neg ==> b =~= t@.drop_first());
    assert(!neg ==> b =~= t@);
    let d = find_dot(t, start);
    proof {
        lemma_dot_index(t@, start as int);
        lemma_dot_index_shift(t@, start as int, start as int);
    }
    let ghost ip = b.subrange(0, d - start);
    assert(ip =~= t@.subrange(start as int, d as int));
    let has_dot = d < t.len();
    let frac_start: usize = if has_dot {
        d + 1
    } else {
        d
    };
    let ghost fp = if d - start < b.len() {
        b.subrange(d - start + 1, b.len() as int)
    } else {
        seq![]
    };
    assert(fp =~= t@.subrange(frac_start as int, t@.len() as int));
    let ilen = d - start;
    let flen = t.len() - frac_start;
    if ilen < 1 || ilen > 12 || flen > 6 || (has_dot && flen < 1) {
        return None;
    }
    if !digits_only(t, start, d) || !digits_only(t, frac_start, t.len()) {
        return None;
    }
    let whole = digits_to_u64(t, start, d);
    let frac = digits_to_u64(t, frac_start, t.len());
    let mut scale: u64 = 1;
    let mut z: usize = flen;
    while z < 6
        invariant
            flen <= z <= 6,
            scale as int == pow10((z - flen) as nat),
        decreases 6 - z,
    {
        proof {
            lemma_pow10_mono((z - flen) as nat, 6);
            lemma_pow10_values();
        }
        scale = scale * 10;
        z = z + 1;
    }
    proof {
        lemma_pow10_values();
        lemma_pow10_mono(ilen as nat, 12);
        lemma_scaled_fraction(frac as int, flen as nat);
        assert(whole as int * 1_000_000 <= 1_000_000_000_000_000_000) by (nonlinear_arith)
            requires
                whole as int <= 1_000_000_000_000,
        ;
    }
    let units = (whole * 1_000_000 + frac * scale) as i64;
    if neg {
        Some(-units)
    } else {
        Some(units)
    }
}

/// A fraction of `n` digits, scaled to six digits, is at most a million.
proof fn lemma_scaled_fraction(f: int, n: nat)
    requires
        n <= 6,
        0 <= f < pow10(n),
    ensures
        f * pow10((6 - n) as nat) <= 1_000_000,
{
    lemma_pow10_add(n, (6 - n) as nat);
    lemma_pow10_values();
    lemma_pow10((6 - n) as nat);
    let s = pow10((6 - n) as nat);
    assert(f * s <= pow10(n) * s) by (nonlinear_arith)
        requires
            f < pow10(n),
            s >= 1,
    ;
}

/// Parses a count (`skip`, `limit`): digits only.
pub fn parse_count(t: &[char]) -> (r: Option<u64>)
    ensures
        match r {
            Some(n) => count_value(t@) == Some(n as int),
            None => count_value(t@) is None,
        },
{
    assert(t@.subrange(0, t@.len() as int) =~= t@);
    if t.len() < 1 || t.len() > 18 || !digits_only(t, 0, t.len()) {
        return None;
    }
    Some(digits_to_u64(t, 0, t.len()))
}


pub open spec fn digit_char(d: int) -> char {
    if d == 0 {
        '0'
    } else if d == 1 {
        '1'
    } else if d == 2 {
        '2'
    } else if d == 3 {
        '3'
    } else if d == 4 {
        '4'
    } else if d == 5 {
        '5'
    } else if d == 6 {
        '6'
    } else if d == 7 {
        '7'
    } else if d == 8 {
        '8'
    } else {
        '9'
    }
}

/// The decimal digits of `n`, without leading zeros.
pub open spec fn int_text(n: nat) -> Seq<char>
    decreases n,
{
    if n < 10 {
        seq![digit_char(n as int)]
    } else {
        int_text(n / 10).push(digit_char((n % 10) as int))
    }
}

/// The last `k` decimal digits of `f`, padded with leading zeros.
pub open spec fn padded_digits(f: nat, k: nat) -> Seq<char>
    decreases k,
{
    if k == 0 {
        seq![]
    } else {
        padded_digits(f / 10, (k - 1) as nat).push(digit_char((f % 10) as int))
    }
}

/// `s` without its trailing zeros.
pub open spec fn trim_zeros(s: Seq<char>) -> Seq<char>
    decreases s.len(),
{
    if s.len() > 0 && s.last() == '0' {
        trim_zeros(s.drop_last())
    } else {
        s
    }
}

/// The text of a number of millionths: its sign, its whole part, and its
/// fraction without trailing zeros where it has one.
pub open spec fn number_text(n: int) -> Seq<char> {
    let m = if n < 0 {
        -n
    } else {
        n
    };
    let sign = if n < 0 {
        seq!['-']
    } else {
        seq![]
    };
    let body = sign + int_text((m / 1_000_000) as nat);
    if m % 1_000_000 == 0 {
        body
    } else {
        body + seq!['.'] + trim_zeros(padded_digits((m % 1_000_000) as nat, 6))
    }
}

fn digit_char_of(d: u64) -> (r: char)
    requires
        d < 10,
    ensures
        r == digit_char(d as int),
{
    if d == 0 {
        '0'
    } else if d == 1 {
        '1'
    } else if d == 2 {
        '2'
    } else if d == 3 {
        '3'
    } else if d == 4 {
        '4'
    } else if d == 5 {
        '5'
    } else if d == 6 {
        '6'
    } else if d == 7 {
        '7'
    } else if d == 8 {
        '8'
    } else {
        '9'
    }
}

fn int_chars(n: u64) -> (r: Vec<char>)
    ensures
        r@ == int_text(n as nat),
    decreases n,
{
    if n < 10 {
        vec![digit_char_of(n)]
    } else {
        let mut v = int_chars(n / 10);
        v.push(digit_char_of(n % 10));
        v
    }
}

fn padded_chars(f: u64, k: u64) -> (r: Vec<char>)
    ensures
        r@ == padded_digits(f as nat, k as nat),
    decreases k,
{
    if k == 0 {
        Vec::new()
    } else {
        let mut v = padded_chars(f / 10, k - 1);
        v.push(digit_char_of(f % 10));
        v
    }
}

/// Renders a number of millionths as decimal text.
pub fn format_number(n: i64) -> (r: Vec<char>)
    ensures
        r@ == number_text(n as int),
{
    let m: u64 = if n < 0 {
        (-(n as i128)) as u64
    } else {
        n as u64
    };
    let mut out: Vec<char> = if n < 0 {
        vec!['-']
    } else {
        Vec::new()
    };
    let mut whole = int_chars(m / 1_000_000);
    out.append(&mut whole);
    let frac = m % 1_000_000;
    if frac != 0 {
        out.push('.');
        let mut digits = padded_chars(frac, 6);
        let ghost full = digits@;
        while digits.len() > 0 && digits[digits.len() - 1] == '0'
            invariant
                trim_zeros(full) == trim_zeros(digits@),
            decreases digits@.len(),
        {
            digits.pop();
        }
        out.append(&mut digits);
    }
    out
}

} // verus!
