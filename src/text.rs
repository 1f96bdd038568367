//! Decimal rendering of integers and fixed-point values, and small string helpers.

use vstd::prelude::*;

verus! {

/// The character of a decimal digit.
pub open spec fn digit_char(d: nat) -> char {
    if d == 0 {
        '0'
    } else if d == 1 {
        '1'
    } else if d == 2 {
        '2'
    } else if d == 3 {
        '3'
    } else if d == 4 {
        '4'
    } else if d == 5 {
        '5'
    } else if d == 6 {
        '6'
    } else if d == 7 {
        '7'
    } else if d == 8 {
        '8'
    } else {
        '9'
    }
}

/// The decimal digits of `n`, most significant first, without leading zeros.
pub open spec fn decimal(n: nat) -> Seq<char>
    decreases n,
{
    if n < 10 {
        seq![digit_char(n)]
    } else {
        decimal(n / 10).push(digit_char(n % 10))
    }
}

fn digit_text(d: u64) -> (s: &'static str)
    requires
        d < 10,
    ensures
        s@ == seq![digit_char(d as nat)],
{
    if d == 0 {
        proof { reveal_strlit("0"); }
        "0"
    } else if d == 1 {
        proof { reveal_strlit("1"); }
        "1"
    } else if d == 2 {
        proof { reveal_strlit("2"); }
        "2"
    } else if d == 3 {
        proof { reveal_strlit("3"); }
        "3"
    } else if d == 4 {
        proof { reveal_strlit("4"); }
        "4"
    } else if d == 5 {
        proof { reveal_strlit("5"); }
        "5"
    } else if d == 6 {
        proof { reveal_strlit("6"); }
        "6"
    } else if d == 7 {
        proof { reveal_strlit("7"); }
        "7"
    } else if d == 8 {
        proof { reveal_strlit("8"); }
        "8"
    } else {
        proof { reveal_strlit("9"); }
        "9"
    }
}

/// Renders `n` in decimal.
pub fn decimal_text(n: u64) -> (s: String)
    ensures
        s@ == decimal(n as nat),
    decreases n,
{
    if n < 10 {
        String::from_str(digit_text(n))
    } else {
        let mut s = decimal_text(n / 10);
        s.append(digit_text(n % 10));
        s
    }
}

/// Ten to the power `p`.
pub open spec fn pow10(p: nat) -> nat
    decreases p,
{
    if p == 0 {
        1
    } else {
        10 * pow10((p - 1) as nat)
    }
}

/// The `p` lowest decimal digits of `f`, zero-padded on the left, with the
/// zeros at their right end left out.
pub open spec fn fraction_digits(f: nat, p: nat) -> Seq<char>
    decreases p,
{
    if p == 0 {
        seq![]
    } else if f % 10 == 0 {
        fraction_digits(f / 10, (p - 1) as nat)
    } else {
        padded_digits(f, p)
    }
}

/// The `p` lowest decimal digits of `f`, zero-padded on the left.
pub open spec fn padded_digits(f: nat, p: nat) -> Seq<char>
    decreases p,
{
    if p == 0 {
        seq![]
    } else {
        padded_digits(f / 10, (p - 1) as nat).push(digit_char(f % 10))
    }
}

/// The text of the fixed-point value `v / 10^p`: a sign when negative, the
/// integer part, and the fraction without trailing zeros (none when it is zero).
pub open spec fn fixed_text(v: int, p: nat) -> Seq<char> {
    let a: nat = if v < 0 { (-v) as nat } else { v as nat };
    let sign: Seq<char> = if v < 0 { seq!['-'] } else { seq![] };
    let frac = fraction_digits(a % pow10(p), p);
    sign + decimal(a / pow10(p)) + if frac.len() == 0 { seq![] } else { seq!['.'] + frac }
}

fn padded_text(f: u64, p: u32) -> (s: String)
    ensures
        s@ == padded_digits(f as nat, p as nat),
    decreases p,
{
    if p == 0 {
        String::new()
    } else {
        let mut s = padded_text(f / 10, p - 1);
        s.append(digit_text(f % 10));
        s
    }
}

fn fraction_text(f: u64, p: u32) -> (s: String)
    ensures
        s@ == fraction_digits(f as nat, p as nat),
    decreases p,
{
    if p == 0 {
        String::new()
    } else if f % 10 == 0 {
        fraction_text(f / 10, p - 1)
    } else {
        padded_text(f, p)
    }
}

/// Renders the fixed-point value `v / 10^p`, as `-12.5` or `85`.
pub fn fixed_point_text(v: i64, p: u32) -> (s: String)
    requires
        p <= 18,
    ensures
        s@ == fixed_text(v as int, p as nat),
{
    let a: u64 = if v < 0 { (0i128 - v as i128) as u64 } else { v as u64 };
    let scale = pow10_exec(p);
    let mut s = if v < 0 {
        proof { reveal_strlit("-"); }
        String::from_str("-")
    } else {
        String::new()
    };
    let whole = decimal_text(a / scale);
    s.append(whole.as_str());
    let frac = fraction_text(a % scale, p);
    if frac.unicode_len() > 0 {
        proof { reveal_strlit("."); }
        s.append(".");
        s.append(frac.as_str());
    }
    proof {
        let sign: Seq<char> = if v < 0 { seq!['-'] } else { seq![] };
        assert(s@ =~= fixed_text(v as int, p as nat));
    }
    s
}

fn pow10_exec(p: u32) -> (r: u64)
    requires
        p <= 18,
    ensures
        r as nat == pow10(p as nat),
        r > 0,
    decreases p,
{
    if p == 0 {
        1
    } else {
        let r = pow10_exec(p - 1);
        proof { lemma_pow10_bound((p - 1) as nat); }
        10 * r
    }
}

proof fn lemma_pow10_bound(p: nat)
    requires
        p <= 17,
    ensures
        pow10(p) <= 100_000_000_000_000_000,
{
    lemma_pow10_grows(p, 17);
    reveal_with_fuel(pow10, 18);
    assert(pow10(17) == 100_000_000_000_000_000);
}

proof fn lemma_pow10_grows(p: nat, q: nat)
    requires
        p <= q,
    ensures
        pow10(p) <= pow10(q),
    decreases q - p,
{
    if p < q {
        lemma_pow10_grows(p + 1, q);
    }
}

/// `a` followed by `b`.
pub fn concat(a: &str, b: &str) -> (s: String)
    ensures
        s@ == a@ + b@,
{
    let mut s = String::from_str(a);
    s.append(b);
    s
}

/// The code of `c` with the letters `A` to `Z` taken to lower case.
pub open spec fn folded(c: char) -> u32 {
    if 'A' <= c && c <= 'Z' {
        (c as u32 + 32) as u32
    } else {
        c as u32
    }
}

/// `a` and `b` are equal when ASCII letters are compared without regard to case.
pub open spec fn same_ignoring_case(a: Seq<char>, b: Seq<char>) -> bool {
    a.len() == b.len() && forall|i: int| 0 <= i < a.len() ==> folded(#[trigger] a[i]) == folded(b[i])
}

fn fold_exec(c: char) -> (r: u32)
    ensures
        r == folded(c),
{
    if 'A' <= c && c <= 'Z' {
        c as u32 + 32
    } else {
        c as u32
    }
}

/// Compares two strings, ASCII letters without regard to case.
pub fn eq_ignoring_case(a: &str, b: &str) -> (r: bool)
    ensures
        r == same_ignoring_case(a@, b@),
{
    let n = a.unicode_len();
    if n != b.unicode_len() {
        return false;
    }
    let mut i: usize = 0;
    while i < n
        invariant
            n == a@.len(),
            n == b@.len(),
            i <= n,
            forall|j: int| 0 <= j < i ==> folded(#[trigger] a@[j]) == folded(b@[j]),
        decreases n - i,
    {
        if fold_exec(a.get_char(i)) != fold_exec(b.get_char(i)) {
            return false;
        }
        i += 1;
    }
    true
}

} // verus!
