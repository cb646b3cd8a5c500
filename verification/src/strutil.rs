//! Verified string helpers: character classification, decimal rendering,
//! and case-insensitive substring search.
//!
//! All helpers work on `char` sequences; paths and diagnostics are plain
//! strings throughout the library.

use vstd::prelude::*;

verus! {

/// Whether `c` is an ASCII decimal digit.
pub open spec fn is_digit(c: char) -> bool {
    '0' <= c && c <= '9'
}

/// The numeric value of an ASCII decimal digit.
pub open spec fn digit_val(c: char) -> int {
    c as int - '0' as int
}

/// The digit character for a value in `0 ..= 9`.
pub open spec fn digit_char(d: int) -> char {
    if d == 0 {
        '0'
    } else if d == 1 {
        '1'
    } else if d == 2 {
        '2'
    } else if d == 3 {
        '3'
    } else if d == 4 {
        '4'
    } else if d == 5 {
        '5'
    } else if d == 6 {
        '6'
    } else if d == 7 {
        '7'
    } else if d == 8 {
        '8'
    } else {
        '9'
    }
}

/// The decimal digit sequence of `n`, most significant digit first.
pub open spec fn dec_digits(n: nat) -> Seq<char>
    decreases n,
{
    if n < 10 {
        seq![digit_char(n as int)]
    } else {
        dec_digits(n / 10) + seq![digit_char((n % 10) as int)]
    }
}

/// `n` rendered to width two: a leading `'0'` where `n < 10`.
pub open spec fn dec_pad2(n: nat) -> Seq<char> {
    if n < 10 {
        seq!['0'] + dec_digits(n)
    } else {
        dec_digits(n)
    }
}

/// The fractional digits of a millisecond remainder `f` in `1 ..= 999`,
/// written to three places with trailing zeros removed.
pub open spec fn frac_digits(f: nat) -> Seq<char> {
    if f % 100 == 0 {
        seq![digit_char((f / 100) as int)]
    } else if f % 10 == 0 {
        seq![digit_char((f / 100) as int), digit_char(((f / 10) % 10) as int)]
    } else {
        seq![
            digit_char((f / 100) as int),
            digit_char(((f / 10) % 10) as int),
            digit_char((f % 10) as int),
        ]
    }
}

/// A non-negative millisecond count rendered as a decimal second count:
/// the shortest form, with no fractional part when it is zero
/// (`10000 -> "10"`, `5500 -> "5.5"`, `1 -> "0.001"`).
pub open spec fn millis_disp_nonneg(m: nat) -> Seq<char> {
    if m % 1000 == 0 {
        dec_digits(m / 1000)
    } else {
        dec_digits(m / 1000) + seq!['.'] + frac_digits(m % 1000)
    }
}

/// A millisecond count rendered as a decimal second count, with a leading
/// minus sign when negative.
pub open spec fn millis_disp(m: int) -> Seq<char> {
    if m >= 0 {
        millis_disp_nonneg(m as nat)
    } else {
        seq!['-'] + millis_disp_nonneg((-m) as nat)
    }
}

/// The lower-cased code point of `c`: ASCII letters fold to lower case,
/// every other character keeps its own code point.
pub open spec fn lower_code(c: char) -> int {
    if 'A' <= c && c <= 'Z' {
        c as int + 32
    } else {
        c as int
    }
}

/// Whether `needle` occurs in `hay` starting at position `i`, compared
/// case-insensitively over ASCII letters.
pub open spec fn ci_match_at(hay: Seq<char>, needle: Seq<char>, i: int) -> bool {
    forall|j: int| 0 <= j < needle.len() ==> lower_code(hay[i + j]) == lower_code(needle[j])
}

/// Whether `needle` occurs anywhere in `hay`, compared case-insensitively
/// over ASCII letters.
pub open spec fn ci_contains(hay: Seq<char>, needle: Seq<char>) -> bool {
    exists|i: int| 0 <= i && i + needle.len() <= hay.len() && ci_match_at(hay, needle, i)
}

/// Whether the character `c` occurs in `s`.
pub open spec fn contains_char(s: Seq<char>, c: char) -> bool {
    exists|i: int| 0 <= i < s.len() && s[i] == c
}

/// A decimal rendering starts with a digit.
pub proof fn lemma_dec_digits_first(n: nat)
    ensures
        dec_digits(n).len() >= 1,
        '0' <= dec_digits(n)[0] <= '9',
    decreases n,
{
    if n >= 10 {
        lemma_dec_digits_first(n / 10);
    }
}

/// A non-negative millisecond display starts with a digit.
pub proof fn lemma_millis_disp_nonneg_first(m: nat)
    ensures
        millis_disp_nonneg(m).len() >= 1,
        '0' <= millis_disp_nonneg(m)[0] <= '9',
{
    lemma_dec_digits_first(m / 1000);
}

/// The characters of `s`, in order.
pub fn chars_of(s: &str) -> (v: Vec<char>)
    ensures
        v@ == s@,
{
    let n: usize = s.unicode_len();
    let mut v: Vec<char> = Vec::new();
    let mut i: usize = 0;
    while i < n
        invariant
            i <= n,
            n == s@.len(),
            v@ == s@.take(i as int),
        decreases n - i,
    {
        let c = s.get_char(i);
        v.push(c);
        assert(v@ =~= s@.take(i + 1));
        i = i + 1;
    }
    assert(v@ =~= s@);
    v
}

/// The one-character string for a digit value in `0 ..= 9`.
pub fn digit_str(d: u64) -> (r: &'static str)
    requires
        d < 10,
    ensures
        r@ =~= seq![digit_char(d as int)],
{
    proof {
        reveal_strlit("0");
        reveal_strlit("1");
        reveal_strlit("2");
        reveal_strlit("3");
        reveal_strlit("4");
        reveal_strlit("5");
        reveal_strlit("6");
        reveal_strlit("7");
        reveal_strlit("8");
        reveal_strlit("9");
    }
    if d == 0 {
        "0"
    } else if d == 1 {
        "1"
    } else if d == 2 {
        "2"
    } else if d == 3 {
        "3"
    } else if d == 4 {
        "4"
    } else if d == 5 {
        "5"
    } else if d == 6 {
        "6"
    } else if d == 7 {
        "7"
    } else if d == 8 {
        "8"
    } else {
        "9"
    }
}

/// `n` rendered in decimal, most significant digit first.
pub fn u64_to_string(n: u64) -> (r: String)
    ensures
        r@ == dec_digits(n as nat),
    decreases n,
{
    if n < 10 {
        String::from_str(digit_str(n))
    } else {
        let mut r = u64_to_string(n / 10);
        r.append(digit_str(n % 10));
        r
    }
}

/// `n` rendered in decimal, zero-padded to width two.
pub fn u64_to_pad2(n: u64) -> (r: String)
    ensures
        r@ == dec_pad2(n as nat),
{
    if n < 10 {
        let mut r = String::from_str("0");
        proof {
            reveal_strlit("0");
        }
        r.append(digit_str(n));
        assert(r@ =~= dec_pad2(n as nat));
        r
    } else {
        u64_to_string(n)
    }
}

/// A non-negative millisecond count rendered as a decimal second count.
pub fn millis_to_display_nonneg(m: i64) -> (r: String)
    requires
        m >= 0,
    ensures
        r@ == millis_disp_nonneg(m as nat),
{
    let whole: i64 = m / 1000;
    let frac: i64 = m % 1000;
    let mut r = u64_to_string(whole as u64);
    if frac == 0 {
        r
    } else {
        r.append(".");
        proof {
            reveal_strlit(".");
        }
        let d1: i64 = frac / 100;
        let d2: i64 = (frac / 10) % 10;
        let d3: i64 = frac % 10;
        r.append(digit_str(d1 as u64));
        if d2 != 0 || d3 != 0 {
            r.append(digit_str(d2 as u64));
        }
        if d3 != 0 {
            r.append(digit_str(d3 as u64));
        }
        assert(r@ =~= millis_disp_nonneg(m as nat));
        r
    }
}

/// A millisecond count rendered as a decimal second count, with a leading
/// minus sign when negative.
pub fn millis_to_display(m: i64) -> (r: String)
    requires
        m > i64::MIN,
    ensures
        r@ == millis_disp(m as int),
{
    if m >= 0 {
        millis_to_display_nonneg(m)
    } else {
        let mut r = String::from_str("-");
        proof {
            reveal_strlit("-");
        }
        let pos = millis_to_display_nonneg(-m);
        r.append(pos.as_str());
        assert(r@ =~= millis_disp(m as int));
        r
    }
}

/// Whether `a` and `b` are the same character up to ASCII case.
pub fn chars_eq_ci(a: char, b: char) -> (r: bool)
    ensures
        r == (lower_code(a) == lower_code(b)),
{
    let ca: u32 = if 'A' <= a && a <= 'Z' {
        a as u32 + 32
    } else {
        a as u32
    };
    let cb: u32 = if 'A' <= b && b <= 'Z' {
        b as u32 + 32
    } else {
        b as u32
    };
    ca == cb
}

/// Whether `needle` occurs anywhere in `hay`, compared case-insensitively
/// over ASCII letters.
pub fn contains_ci(hay: &Vec<char>, needle: &str) -> (r: bool)
    ensures
        r == ci_contains(hay@, needle@),
{
    let nv = chars_of(needle);
    let n = hay.len();
    let m = nv.len();
    if m > n {
        assert(!ci_contains(hay@, needle@));
        return false;
    }
    let mut i: usize = 0;
    while i <= n - m
        invariant
            hay@.len() == n,
            nv@ == needle@,
            nv@.len() == m,
            m <= n,
            i <= n - m + 1,
            forall|k: int| 0 <= k < i ==> !ci_match_at(hay@, needle@, k),
        decreases n - i,
    {
        let mut j: usize = 0;
        let mut matches = true;
        while j < m
            invariant
                hay@.len() == n,
                nv@ == needle@,
                nv@.len() == m,
                i + m <= n,
                j <= m,
                matches == (forall|l: int| 0 <= l < j ==> lower_code(hay@[i + l])
                    == lower_code(needle@[l])),
            decreases m - j,
        {
            if !chars_eq_ci(hay[i + j], nv[j]) {
                matches = false;
                j = m;
            } else {
                j = j + 1;
            }
        }
        if matches {
            assert(ci_match_at(hay@, needle@, i as int));
            return true;
        }
        i = i + 1;
    }
    assert forall|k: int| 0 <= k && k + needle@.len() <= hay@.len() implies !ci_match_at(
        hay@,
        needle@,
        k,
    ) by {
        assert(k < i);
    }
    false
}


} // verus!
