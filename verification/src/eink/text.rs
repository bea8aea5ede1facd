//! Text building: decimal numbers, padding, repetition and truncation.
use vstd::prelude::*;
use vstd::string::StringExecFns;

verus! {

/// The character of decimal digit `d`.
pub open spec fn digit_char(d: int) -> char {
    (48 + d) as char
}

/// The decimal digits of `n`, most significant first, without leading
/// zeros ("0" for zero).
pub open spec fn decimal(n: nat) -> Seq<char>
    decreases n,
{
    if n < 10 {
        seq![digit_char(n as int)]
    } else {
        decimal(n / 10).push(digit_char((n % 10) as int))
    }
}

/// `v` in decimal, with a leading `-` when negative.
pub open spec fn signed_decimal(v: int) -> Seq<char> {
    if v < 0 {
        seq!['-'] + decimal((-v) as nat)
    } else {
        decimal(v as nat)
    }
}

/// `s` right-aligned in a field of `width` characters: spaces in front of
/// it up to that width.
pub open spec fn pad_left(s: Seq<char>, width: int) -> Seq<char> {
    if s.len() < width {
        Seq::new((width - s.len()) as nat, |i: int| ' ') + s
    } else {
        s
    }
}

/// The first `n` characters of `s`, or all of it where it is shorter.
pub open spec fn prefix(s: Seq<char>, n: int) -> Seq<char> {
    if n < s.len() {
        s.take(n)
    } else {
        s
    }
}

/// `n` copies of `s`.
pub open spec fn repeat(s: Seq<char>, n: nat) -> Seq<char>
    decreases n,
{
    if n == 0 {
        Seq::empty()
    } else {
        repeat(s, (n - 1) as nat) + s
    }
}

/// `10^k`.
pub open spec fn pow10(k: nat) -> nat
    decreases k,
{
    if k == 0 {
        1
    } else {
        10 * pow10((k - 1) as nat)
    }
}

/// A number below `10^k` has at most `k` digits.
pub proof fn lemma_decimal_len(n: nat, k: nat)
    requires
        k >= 1,
        n < pow10(k),
    ensures
        decimal(n).len() <= k,
    decreases k,
{
    if n >= 10 {
        assert(k >= 2) by {
            if k == 1 {
                assert(pow10(1) == 10) by {
                    reveal_with_fuel(pow10, 2);
                }
            }
        }
        lemma_decimal_len(n / 10, (k - 1) as nat);
    }
}

/// Every `u64` has at most 20 digits.
pub proof fn lemma_u64_digits(n: u64)
    ensures
        decimal(n as nat).len() <= 20,
{
    assert(pow10(20) == 100000000000000000000) by {
        reveal_with_fuel(pow10, 21);
    }
    lemma_decimal_len(n as nat, 20);
}

/// The one-character text of digit `d`.
fn digit_str(d: u64) -> (r: &'static str)
    requires
        d < 10,
    ensures
        r@ == seq![digit_char(d as int)],
{
    proof {
        reveal_strlit("0");
        reveal_strlit("1");
        reveal_strlit("2");
        reveal_strlit("3");
        reveal_strlit("4");
        reveal_strlit("5");
        reveal_strlit("6");
        reveal_strlit("7");
        reveal_strlit("8");
        reveal_strlit("9");
    }
    if d == 0 {
        "0"
    } else if d == 1 {
        "1"
    } else if d == 2 {
        "2"
    } else if d == 3 {
        "3"
    } else if d == 4 {
        "4"
    } else if d == 5 {
        "5"
    } else if d == 6 {
        "6"
    } else if d == 7 {
        "7"
    } else if d == 8 {
        "8"
    } else {
        "9"
    }
}

/// `n` in decimal.
pub fn fmt_u64(n: u64) -> (r: String)
    ensures
        r@ == decimal(n as nat),
    decreases n,
{
    if n < 10 {
        String::from_str(digit_str(n))
    } else {
        let mut s = fmt_u64(n / 10);
        s.append(digit_str(n % 10));
        s
    }
}

/// `v` in decimal, with a leading `-` when negative.
pub fn fmt_i64(v: i64) -> (r: String)
    ensures
        r@ == signed_decimal(v as int),
{
    if v < 0 {
        let magnitude: u64 = (0i128 - v as i128) as u64;
        proof {
            reveal_strlit("-");
        }
        let digits = fmt_u64(magnitude);
        let s = String::from_str("-");
        s.concat(digits.as_str())
    } else {
        fmt_u64(v as u64)
    }
}

/// `s` right-aligned in a field of `width` characters.
pub fn pad_to(s: String, width: usize) -> (r: String)
    ensures
        r@ == pad_left(s@, width as int),
{
    let len = s.as_str().unicode_len();
    if len >= width {
        return s;
    }
    proof {
        reveal_strlit(" ");
    }
    let mut pad = String::new();
    let mut k: usize = 0;
    while k < width - len
        invariant
            len == s@.len(),
            len < width,
            k <= width - len,
            pad@ == Seq::new(k as nat, |i: int| ' '),
        decreases width - len - k,
    {
        proof {
            reveal_strlit(" ");
        }
        pad.append(" ");
        assert(pad@ =~= Seq::new((k + 1) as nat, |i: int| ' '));
        k = k + 1;
    }
    pad.concat(s.as_str())
}

/// The first `n` characters of `s`.
pub fn take_chars(s: &str, n: usize) -> (r: String)
    ensures
        r@ == prefix(s@, n as int),
{
    let len = s.unicode_len();
    if n < len {
        s.substring_char(0, n).to_owned()
    } else {
        assert(s@.subrange(0, len as int) =~= s@);
        s.substring_char(0, len).to_owned()
    }
}

/// `n` copies of `s`.
pub fn repeat_str(s: &str, n: usize) -> (r: String)
    ensures
        r@ == repeat(s@, n as nat),
{
    let mut out = String::new();
    let mut k: usize = 0;
    while k < n
        invariant
            k <= n,
            out@ == repeat(s@, k as nat),
        decreases n - k,
    {
        out.append(s);
        k = k + 1;
    }
    out
}

} // verus!
