//! The time-expression grammar and its parser.
//!
//! An expression is plain seconds (`"120"`, `"45.5"`), a colon form
//! (`"2:30"`, `"1:30:45"`), or a unit-suffixed composite (`"1h30m45s"`,
//! `"90m"`). The parser turns it into a fixed-point `Seconds` value;
//! formatters render such a value back into `MM-SS` and `HH:MM:SS` forms.
//!
//! The grammar is stated as spec functions over character sequences and
//! each executable function is proved against it. A numeric field is a
//! run of ASCII digits with at most one dot; fraction digits beyond the
//! third (beyond millisecond precision) are ignored.

use vstd::prelude::*;

use crate::error::VideoClipError;
use crate::seconds::Seconds;
use crate::strutil::contains_char;
use crate::strutil::dec_pad2;
use crate::strutil::digit_val;
use crate::strutil::is_digit;
use crate::strutil::u64_to_pad2;
use crate::strutil::chars_of;

verus! {

/// Whether `c` is whitespace the parser skips: the ASCII whitespace set.
pub open spec fn is_space(c: char) -> bool {
    c == ' ' || c == '\t' || c == '\n' || c == '\r' || c == '\u{b}' || c == '\u{c}'
}

/// Whether `c` can appear in a numeric field: an ASCII digit or a dot.
pub open spec fn is_num_char(c: char) -> bool {
    is_digit(c) || c == '.'
}

/// Whether every character of `s` can appear in a numeric field.
pub open spec fn all_num_chars(s: Seq<char>) -> bool {
    forall|i: int| 0 <= i < s.len() ==> is_num_char(s[i])
}

/// Whether `s` holds at least one ASCII digit.
pub open spec fn has_digit(s: Seq<char>) -> bool {
    exists|i: int| 0 <= i < s.len() && is_digit(s[i])
}

/// `s` with leading whitespace removed.
pub open spec fn trim_front(s: Seq<char>) -> Seq<char>
    decreases s.len(),
{
    if s.len() > 0 && is_space(s[0]) {
        trim_front(s.skip(1))
    } else {
        s
    }
}

/// `s` with trailing whitespace removed.
pub open spec fn trim_back(s: Seq<char>) -> Seq<char>
    decreases s.len(),
{
    if s.len() > 0 && is_space(s.last()) {
        trim_back(s.drop_last())
    } else {
        s
    }
}

/// `s` with leading and trailing whitespace removed.
pub open spec fn trim_spec(s: Seq<char>) -> Seq<char> {
    trim_back(trim_front(s))
}

/// The position of the first occurrence of `c` in `s`, or `-1` when there
/// is none.
pub open spec fn find_char(s: Seq<char>, c: char) -> int
    decreases s.len(),
{
    if s.len() == 0 {
        -1
    } else if s[0] == c {
        0
    } else {
        let r = find_char(s.skip(1), c);
        if r == -1 {
            -1
        } else {
            r + 1
        }
    }
}

/// The position of the first dot in `s`, or `-1` when there is none.
pub open spec fn first_dot(s: Seq<char>) -> int {
    find_char(s, '.')
}

/// The value of a run of ASCII digits, most significant first.
pub open spec fn digits_val(s: Seq<char>) -> int
    decreases s.len(),
{
    if s.len() == 0 {
        0
    } else {
        digits_val(s.drop_last()) * 10 + digit_val(s.last())
    }
}

/// The milliseconds denoted by the fraction digits `f` (the digits after
/// the dot): the first three digits, scaled to milliseconds; digits past
/// the third are ignored.
pub open spec fn frac_millis(f: Seq<char>) -> int {
    if f.len() == 0 {
        0
    } else if f.len() == 1 {
        digit_val(f[0]) * 100
    } else if f.len() == 2 {
        digit_val(f[0]) * 100 + digit_val(f[1]) * 10
    } else {
        digit_val(f[0]) * 100 + digit_val(f[1]) * 10 + digit_val(f[2])
    }
}

/// The milliseconds denoted by the numeric field `s`, or `None` when `s`
/// is not a numeric field: it must hold at least one digit, only digits
/// and dots, and at most one dot.
pub open spec fn num_millis(s: Seq<char>) -> Option<int> {
    let d = first_dot(s);
    if !has_digit(s) {
        None
    } else if exists|i: int| 0 <= i < s.len() && !is_num_char(s[i]) {
        None
    } else if d == -1 {
        Some(digits_val(s) * 1000)
    } else if exists|j: int| d < j < s.len() && s[j] == '.' {
        None
    } else {
        Some(digits_val(s.take(d)) * 1000 + frac_millis(s.skip(d + 1)))
    }
}

/// Characterization of `find_char`: `-1` exactly when `c` does not occur,
/// otherwise the position of an occurrence that no earlier one precedes.
pub proof fn lemma_find_char(s: Seq<char>, c: char)
    ensures
        find_char(s, c) == -1 ==> forall|i: int| 0 <= i < s.len() ==> s[i] != c,
        find_char(s, c) != -1 ==> 0 <= find_char(s, c) < s.len() && s[find_char(s, c)] == c
            && forall|j: int| 0 <= j < find_char(s, c) ==> s[j] != c,
    decreases s.len(),
{
    if s.len() == 0 {
    } else if s[0] == c {
    } else {
        lemma_find_char(s.skip(1), c);
        let r = find_char(s.skip(1), c);
        if r == -1 {
            assert forall|i: int| 0 <= i < s.len() implies s[i] != c by {
                if i > 0 {
                    assert(s.skip(1)[i - 1] == s[i]);
                }
            }
        } else {
            assert(s.skip(1)[r] == s[r + 1]);
            assert forall|j: int| 0 <= j < r + 1 implies s[j] != c by {
                if j > 0 {
                    assert(s.skip(1)[j - 1] == s[j]);
                }
            }
        }
    }
}

/// An occurrence that no occurrence precedes is the first one.
pub proof fn lemma_find_char_at(s: Seq<char>, c: char, k: int)
    requires
        0 <= k < s.len(),
        s[k] == c,
        forall|j: int| 0 <= j < k ==> s[j] != c,
    ensures
        find_char(s, c) == k,
{
    lemma_find_char(s, c);
}

/// Characterization of `first_dot`, specialized from `find_char`.
pub proof fn lemma_first_dot(s: Seq<char>)
    ensures
        first_dot(s) == -1 ==> forall|i: int| 0 <= i < s.len() ==> s[i] != '.',
        first_dot(s) != -1 ==> 0 <= first_dot(s) < s.len() && s[first_dot(s)] == '.' && forall|
            j: int,
        | 0 <= j < first_dot(s) ==> s[j] != '.',
{
    lemma_find_char(s, '.');
}

/// A dot that no dot precedes is the first dot.
pub proof fn lemma_first_dot_at(s: Seq<char>, k: int)
    requires
        0 <= k < s.len(),
        s[k] == '.',
        forall|j: int| 0 <= j < k ==> s[j] != '.',
    ensures
        first_dot(s) == k,
{
    lemma_find_char_at(s, '.', k);
}

/// A run of digits has a non-negative value.
pub proof fn lemma_digits_val_nonneg(s: Seq<char>)
    requires
        forall|i: int| 0 <= i < s.len() ==> is_digit(s[i]),
    ensures
        digits_val(s) >= 0,
    decreases s.len(),
{
    if s.len() > 0 {
        lemma_digits_val_nonneg(s.drop_last());
    }
}

/// Extending a run of digits never lowers its value.
pub proof fn lemma_digits_val_prefix(s: Seq<char>, k: int)
    requires
        forall|i: int| 0 <= i < s.len() ==> is_digit(s[i]),
        0 <= k <= s.len(),
    ensures
        digits_val(s.take(k)) <= digits_val(s),
    decreases s.len(),
{
    if k == s.len() {
        assert(s.take(k) =~= s);
    } else {
        lemma_digits_val_prefix(s.drop_last(), k);
        assert(s.drop_last().take(k) =~= s.take(k));
        lemma_digits_val_nonneg(s.drop_last());
    }
}

/// The fraction digits denote between zero and 999 milliseconds.
pub proof fn lemma_frac_millis_bounds(f: Seq<char>)
    requires
        forall|i: int| 0 <= i < f.len() ==> is_digit(f[i]),
    ensures
        0 <= frac_millis(f) <= 999,
{
}

/// The milliseconds a numeric field denotes are never negative.
pub proof fn lemma_num_millis_nonneg(s: Seq<char>)
    ensures
        num_millis(s) matches Some(v) ==> v >= 0,
{
    if num_millis(s) is Some {
        let d = first_dot(s);
        lemma_first_dot(s);
        if d == -1 {
            lemma_digits_val_nonneg(s);
        } else {
            assert(forall|i: int| 0 <= i < s.take(d).len() ==> is_digit(s.take(d)[i]));
            lemma_digits_val_nonneg(s.take(d));
            assert forall|i: int| 0 <= i < s.skip(d + 1).len() implies is_digit(
                #[trigger] s.skip(d + 1)[i],
            ) by {
                assert(s.skip(d + 1)[i] == s[d + 1 + i]);
            }
            lemma_frac_millis_bounds(s.skip(d + 1));
        }
    }
}

/// Parses the numeric field `v[lo .. hi]`. Returns its millisecond value,
/// or `None` when the field is not numeric or its value does not fit.
pub fn parse_number(v: &Vec<char>, lo: usize, hi: usize) -> (r: Option<i64>)
    requires
        lo <= hi <= v@.len(),
    ensures
        ({
            let s = v@.subrange(lo as int, hi as int);
            match r {
                Some(x) => num_millis(s) == Some(x as int) && x >= 0,
                None => num_millis(s) is None || (num_millis(s) matches Some(w) && w > i64::MAX),
            }
        }),
{
    let ghost s = v@.subrange(lo as int, hi as int);
    let mut i: usize = lo;
    let mut acc: i64 = 0;
    // integer part: digits up to the first dot or the end
    while i < hi && v[i] != '.'
        invariant
            lo <= i <= hi <= v@.len(),
            forall|k: int| lo <= k < i ==> is_digit(v@[k]) && v@[k] != '.',
            acc == digits_val(v@.subrange(lo as int, i as int)),
            acc >= 0,
            s == v@.subrange(lo as int, hi as int),
        decreases hi - i,
    {
        let c = v[i];
        if !(c >= '0' && c <= '9') {
            assert(s[i - lo] == c && !is_num_char(c));
            return None;
        }
        let d: i64 = (c as u32 - '0' as u32) as i64;
        let ghost pre = v@.subrange(lo as int, i as int);
        proof {
            assert(s.take(i as int - lo as int) =~= pre);
            assert forall|j: int| 0 <= j < i as int - lo as int implies is_digit(#[trigger] s[j])
                && s[j] != '.' by {
                assert(s[j] == v@[lo + j]);
            }
            assert(s[i as int - lo as int] == c);
        }
        let acc10 = match acc.checked_mul(10) {
            Some(a) => a,
            None => {
                proof {
                    overflow_int_part(s, i as int - lo as int, acc * 10 + d);
                }
                return None;
            },
        };
        let acc2 = match acc10.checked_add(d) {
            Some(a) => a,
            None => {
                proof {
                    overflow_int_part(s, i as int - lo as int, acc * 10 + d);
                }
                return None;
            },
        };
        acc = acc2;
        i = i + 1;
        proof {
            assert(v@.subrange(lo as int, i as int) =~= pre.push(c));
            assert(pre.push(c).drop_last() =~= pre);
        }
    }
    assert(v@.subrange(lo as int, i as int) =~= s.take(i - lo));
    if i == hi {
        // no dot anywhere: a plain digit run
        proof {
            assert(s.take(i - lo) =~= s);
            lemma_first_dot(s);
        }
        if i == lo {
            assert(!has_digit(s));
            return None;
        }
        match acc.checked_mul(1000) {
            Some(val) => {
                return Some(val);
            },
            None => {
                return None;
            },
        }
    }
    // v[i] is the first dot of the field
    let dot = i;
    let ghost ds = dot as int - lo as int;
    proof {
        assert(s[ds] == '.');
        assert forall|j: int| 0 <= j < ds implies #[trigger] s[j] != '.' by {
            assert(s[j] == v@[lo + j]);
        }
        lemma_first_dot_at(s, ds);
    }
    let mut seen_digit = dot > lo;
    let mut frac: i64 = 0;
    let mut fcount: usize = 0;
    i = dot + 1;
    while i < hi
        invariant
            lo <= dot < i <= hi <= v@.len(),
            s == v@.subrange(lo as int, hi as int),
            ds == dot as int - lo as int,
            forall|k: int| lo <= k < dot ==> is_digit(v@[k]) && v@[k] != '.',
            v@[dot as int] == '.',
            forall|k: int| dot < k < i ==> is_digit(v@[k]) && v@[k] != '.',
            fcount == i - dot - 1,
            frac == frac_millis(v@.subrange(dot as int + 1, i as int)),
            0 <= frac <= 999,
            seen_digit == (dot > lo || i > dot + 1),
        decreases hi - i,
    {
        let c = v[i];
        if !(c >= '0' && c <= '9') {
            if c == '.' {
                proof {
                    assert(s[ds] == '.');
                    assert forall|j: int| 0 <= j < ds implies #[trigger] s[j] != '.' by {
                        assert(s[j] == v@[lo + j]);
                    }
                    lemma_first_dot_at(s, ds);
                }
                assert(s[i - lo] == '.' && ds < i - lo < s.len());
                assert(num_millis(s) is None);
            } else {
                assert(s[i - lo] == c && !is_num_char(c));
                assert(num_millis(s) is None);
            }
            return None;
        }
        let d: i64 = (c as u32 - '0' as u32) as i64;
        let ghost pre = v@.subrange(dot as int + 1, i as int);
        if fcount == 0 {
            frac = d * 100;
        } else if fcount == 1 {
            frac = frac + d * 10;
        } else if fcount == 2 {
            frac = frac + d;
        }
        seen_digit = true;
        i = i + 1;
        fcount = fcount + 1;
        proof {
            assert(v@.subrange(dot as int + 1, i as int) =~= pre.push(c));
            if pre.len() == 0 {
                assert(frac == frac_millis(pre.push(c)));
            } else if pre.len() == 1 {
                assert(pre.push(c)[0] == pre[0]);
                assert(frac == frac_millis(pre.push(c)));
            } else if pre.len() == 2 {
                assert(pre.push(c)[0] == pre[0] && pre.push(c)[1] == pre[1]);
                assert(frac == frac_millis(pre.push(c)));
            } else {
                assert(pre.push(c)[0] == pre[0] && pre.push(c)[1] == pre[1] && pre.push(c)[2]
                    == pre[2]);
                assert(frac == frac_millis(pre.push(c)));
            }
        }
    }
    if !seen_digit {
        assert forall|k: int| 0 <= k < s.len() implies !is_digit(s[k]) by {
            assert(s[k] == v@[lo + k]);
        }
        assert(!has_digit(s));
        return None;
    }
    proof {
        assert(has_digit(s)) by {
            if dot > lo {
                assert(is_digit(s[0]));
            } else {
                assert(is_digit(s[1]));
            }
        }
        assert(forall|i2: int| 0 <= i2 < s.len() ==> is_num_char(s[i2]));
        assert(forall|j: int| ds < j < s.len() ==> s[j] != '.');
        assert(s.take(ds) =~= v@.subrange(lo as int, dot as int));
        assert(s.skip(ds + 1) =~= v@.subrange(dot as int + 1, hi as int));
        assert(num_millis(s) == Some(digits_val(s.take(ds)) * 1000 + frac_millis(s.skip(ds + 1))));
    }
    let whole = match acc.checked_mul(1000) {
        Some(w) => w,
        None => {
            return None;
        },
    };
    match whole.checked_add(frac) {
        Some(val) => Some(val),
        None => None,
    }
}

/// When the digits scanned so far already overflow, the whole field, if it
/// is numeric at all, denotes more milliseconds than fit.
proof fn overflow_int_part(s: Seq<char>, k: int, partial: int)
    requires
        0 <= k < s.len(),
        forall|j: int| 0 <= j < k ==> is_digit(s[j]) && s[j] != '.',
        is_digit(s[k]) && s[k] != '.',
        partial == digits_val(s.take(k)) * 10 + digit_val(s[k]),
        partial > i64::MAX,
    ensures
        num_millis(s) is None || (num_millis(s) matches Some(w) && w > i64::MAX),
{
    if num_millis(s) is Some {
        let d = first_dot(s);
        lemma_first_dot(s);
        assert(partial == digits_val(s.take(k + 1))) by {
            assert(s.take(k + 1).drop_last() =~= s.take(k));
            assert(s.take(k + 1).last() == s[k]);
        }
        if d == -1 {
            assert(forall|i: int| 0 <= i < s.len() ==> is_num_char(s[i]));
            assert forall|i: int| 0 <= i < s.len() implies is_digit(s[i]) by {
                assert(s[i] != '.');
            }
            lemma_digits_val_prefix(s, k + 1);
            assert(digits_val(s) >= partial);
        } else {
            // the first dot lies past position k
            assert(d > k);
            let ip = s.take(d);
            assert(forall|i: int| 0 <= i < s.len() ==> is_num_char(s[i]));
            assert forall|i: int| 0 <= i < ip.len() implies is_digit(ip[i]) by {
                assert(ip[i] == s[i] && s[i] != '.');
            }
            lemma_digits_val_prefix(ip, k + 1);
            assert(ip.take(k + 1) =~= s.take(k + 1));
            assert(digits_val(ip) >= partial);
            assert forall|i: int| 0 <= i < s.skip(d + 1).len() implies is_digit(
                #[trigger] s.skip(d + 1)[i],
            ) by {
                assert(s.skip(d + 1)[i] == s[d + 1 + i]);
            }
            lemma_frac_millis_bounds(s.skip(d + 1));
        }
    }
}

/// Whether `c` is a unit letter of the composite form.
pub open spec fn is_unit(c: char) -> bool {
    c == 'h' || c == 'm' || c == 's'
}

/// How many seconds one of unit `c` lasts.
pub open spec fn unit_factor(c: char) -> int {
    if c == 'h' {
        3600
    } else if c == 'm' {
        60
    } else {
        1
    }
}

/// The composite scanner: walks `s` with a pending numeric buffer `buf`
/// and a running millisecond total. A digit or dot extends the buffer; a
/// unit letter converts the buffer with that unit's factor and adds it; a
/// trailing buffer with no unit counts as seconds; whitespace is skipped,
/// leaving the buffer as it stands; any other character fails, as does a
/// buffer that is not a numeric field when a unit letter consumes it.
pub open spec fn scan_millis(s: Seq<char>, buf: Seq<char>, total: int) -> Option<int>
    decreases s.len(),
{
    if s.len() == 0 {
        if buf.len() == 0 {
            Some(total)
        } else {
            match num_millis(buf) {
                Some(v) => Some(total + v),
                None => None,
            }
        }
    } else {
        let c = s[0];
        if is_num_char(c) {
            scan_millis(s.skip(1), buf.push(c), total)
        } else if is_unit(c) {
            match num_millis(buf) {
                Some(v) => scan_millis(s.skip(1), Seq::empty(), total + v * unit_factor(c)),
                None => None,
            }
        } else if is_space(c) {
            scan_millis(s.skip(1), buf, total)
        } else {
            None
        }
    }
}

/// The running total only offsets the scanner's result.
pub proof fn lemma_scan_offset(s: Seq<char>, buf: Seq<char>, t1: int, t2: int)
    ensures
        scan_millis(s, buf, t1) matches Some(v) ==> scan_millis(s, buf, t2) == Some(v - t1 + t2),
        scan_millis(s, buf, t1) is None ==> scan_millis(s, buf, t2) is None,
    decreases s.len(),
{
    if s.len() == 0 {
    } else {
        let c = s[0];
        if is_num_char(c) {
            lemma_scan_offset(s.skip(1), buf.push(c), t1, t2);
        } else if is_unit(c) {
            match num_millis(buf) {
                Some(v) => {
                    lemma_scan_offset(
                        s.skip(1),
                        Seq::empty(),
                        t1 + v * unit_factor(c),
                        t2 + v * unit_factor(c),
                    );
                },
                None => {},
            }
        } else if is_space(c) {
            lemma_scan_offset(s.skip(1), buf, t1, t2);
        }
    }
}

/// A scan that starts from zero never goes negative.
pub proof fn lemma_scan_nonneg(s: Seq<char>, buf: Seq<char>)
    ensures
        scan_millis(s, buf, 0) matches Some(v) ==> v >= 0,
    decreases s.len(),
{
    lemma_num_millis_nonneg(buf);
    if s.len() == 0 {
    } else {
        let c = s[0];
        if is_num_char(c) {
            lemma_scan_nonneg(s.skip(1), buf.push(c));
        } else if is_unit(c) {
            match num_millis(buf) {
                Some(v) => {
                    lemma_scan_nonneg(s.skip(1), Seq::empty());
                    lemma_scan_offset(s.skip(1), Seq::empty(), 0, v * unit_factor(c));
                },
                None => {},
            }
        } else if is_space(c) {
            lemma_scan_nonneg(s.skip(1), buf);
        }
    }
}

/// The milliseconds denoted by a colon expression: exactly two fields are
/// minutes and seconds, exactly three are hours, minutes and seconds; any
/// other field count, or a field that is not numeric, fails.
pub open spec fn colon_millis(t: Seq<char>) -> Option<int> {
    let p = find_char(t, ':');
    if p == -1 {
        None
    } else {
        let rest = t.skip(p + 1);
        let q = find_char(rest, ':');
        if q == -1 {
            match (num_millis(t.take(p)), num_millis(rest)) {
                (Some(m), Some(s2)) => Some(m * 60 + s2),
                _ => None,
            }
        } else {
            let rest2 = rest.skip(q + 1);
            if find_char(rest2, ':') == -1 {
                match (num_millis(t.take(p)), num_millis(rest.take(q)), num_millis(rest2)) {
                    (Some(h), Some(m), Some(s2)) => Some(h * 3600 + m * 60 + s2),
                    _ => None,
                }
            } else {
                None
            }
        }
    }
}

/// The milliseconds denoted by the expression `raw`, or `None` when the
/// grammar does not accept it. The trimmed expression is classified in
/// priority order: empty means zero; all digits and dots is plain
/// seconds; a colon form has two or three numeric fields; a unit letter
/// selects the composite scanner; anything else fails.
pub open spec fn parse_spec(raw: Seq<char>) -> Option<int> {
    let t = trim_spec(raw);
    if t.len() == 0 {
        Some(0)
    } else if all_num_chars(t) {
        num_millis(t)
    } else if contains_char(t, ':') {
        colon_millis(t)
    } else if contains_char(t, 'h') || contains_char(t, 'm') || contains_char(t, 's') {
        scan_millis(t, Seq::empty(), 0)
    } else {
        None
    }
}

/// Whether `c` is whitespace the parser skips.
fn char_is_space(c: char) -> (r: bool)
    ensures
        r == is_space(c),
{
    c == ' ' || c == '\t' || c == '\n' || c == '\r' || c == '\u{b}' || c == '\u{c}'
}

/// The index range of `v` that remains after trimming whitespace.
fn trim_range(v: &Vec<char>) -> (r: (usize, usize))
    ensures
        r.0 <= r.1 <= v@.len(),
        v@.subrange(r.0 as int, r.1 as int) == trim_spec(v@),
{
    let n = v.len();
    let mut lo: usize = 0;
    proof {
        assert(v@.skip(0) =~= v@);
    }
    while lo < n && char_is_space(v[lo])
        invariant
            lo <= n,
            n == v@.len(),
            trim_front(v@) == trim_front(v@.skip(lo as int)),
        decreases n - lo,
    {
        proof {
            assert(v@.skip(lo as int)[0] == v@[lo as int]);
            assert(v@.skip(lo as int).skip(1) =~= v@.skip(lo as int + 1));
        }
        lo = lo + 1;
    }
    proof {
        if lo < n {
            assert(v@.skip(lo as int)[0] == v@[lo as int]);
        }
        assert(trim_front(v@) == v@.skip(lo as int));
    }
    let ghost t = v@.skip(lo as int);
    let mut hi: usize = n;
    proof {
        assert(t.take(n - lo as int) =~= t);
    }
    while hi > lo && char_is_space(v[hi - 1])
        invariant
            lo <= hi <= n,
            n == v@.len(),
            t == v@.skip(lo as int),
            trim_back(t) == trim_back(t.take(hi as int - lo as int)),
        decreases hi,
    {
        proof {
            assert(t.take(hi as int - lo as int).last() == v@[hi as int - 1]);
            assert(t.take(hi as int - lo as int).drop_last() =~= t.take(hi as int - lo as int - 1));
        }
        hi = hi - 1;
    }
    proof {
        if hi > lo {
            assert(t.take(hi as int - lo as int).last() == v@[hi as int - 1]);
        }
        assert(trim_back(t.take(hi as int - lo as int)) == t.take(hi as int - lo as int));
        assert(t.take(hi as int - lo as int) =~= v@.subrange(lo as int, hi as int));
    }
    (lo, hi)
}

/// Whether every character of `v[lo .. hi]` can appear in a numeric field.
fn all_num_range(v: &Vec<char>, lo: usize, hi: usize) -> (r: bool)
    requires
        lo <= hi <= v@.len(),
    ensures
        r == all_num_chars(v@.subrange(lo as int, hi as int)),
{
    let ghost s = v@.subrange(lo as int, hi as int);
    let mut i: usize = lo;
    while i < hi
        invariant
            lo <= i <= hi <= v@.len(),
            s == v@.subrange(lo as int, hi as int),
            forall|k: int| lo <= k < i ==> is_num_char(v@[k]),
        decreases hi - i,
    {
        let c = v[i];
        if !(c >= '0' && c <= '9' || c == '.') {
            assert(s[i - lo] == c && !is_num_char(c));
            return false;
        }
        i = i + 1;
    }
    assert forall|k: int| 0 <= k < s.len() implies is_num_char(s[k]) by {
        assert(s[k] == v@[lo + k]);
    }
    true
}

/// Whether the character `c` occurs in `v[lo .. hi]`.
fn range_contains(v: &Vec<char>, lo: usize, hi: usize, c: char) -> (r: bool)
    requires
        lo <= hi <= v@.len(),
    ensures
        r == contains_char(v@.subrange(lo as int, hi as int), c),
{
    let ghost s = v@.subrange(lo as int, hi as int);
    let mut i: usize = lo;
    while i < hi
        invariant
            lo <= i <= hi <= v@.len(),
            s == v@.subrange(lo as int, hi as int),
            forall|k: int| lo <= k < i ==> v@[k] != c,
        decreases hi - i,
    {
        if v[i] == c {
            assert(s[i - lo] == c);
            return true;
        }
        i = i + 1;
    }
    assert forall|k: int| 0 <= k < s.len() implies s[k] != c by {
        assert(s[k] == v@[lo + k]);
    }
    false
}

/// The absolute position of the first `c` in `v[lo .. hi]`, tied to
/// `find_char` over that subrange.
fn find_in_range(v: &Vec<char>, lo: usize, hi: usize, c: char) -> (r: Option<usize>)
    requires
        lo <= hi <= v@.len(),
    ensures
        ({
            let s = v@.subrange(lo as int, hi as int);
            match r {
                Some(p) => lo <= p < hi && v@[p as int] == c && find_char(s, c) == p - lo,
                None => find_char(s, c) == -1,
            }
        }),
{
    let ghost s = v@.subrange(lo as int, hi as int);
    let mut i: usize = lo;
    while i < hi
        invariant
            lo <= i <= hi <= v@.len(),
            s == v@.subrange(lo as int, hi as int),
            forall|k: int| lo <= k < i ==> v@[k] != c,
        decreases hi - i,
    {
        if v[i] == c {
            proof {
                assert(s[i - lo] == c);
                assert forall|j: int| 0 <= j < i - lo implies #[trigger] s[j] != c by {
                    assert(s[j] == v@[lo + j]);
                }
                lemma_find_char_at(s, c, i as int - lo as int);
            }
            return Some(i);
        }
        i = i + 1;
    }
    proof {
        assert forall|k: int| 0 <= k < s.len() implies #[trigger] s[k] != c by {
            assert(s[k] == v@[lo + k]);
        }
        lemma_find_char(s, c);
        if find_char(s, c) != -1 {
            assert(s[find_char(s, c)] == c);
        }
    }
    None
}

/// Whatever the grammar accepts denotes a non-negative time.
pub proof fn lemma_parse_spec_nonneg(raw: Seq<char>)
    ensures
        parse_spec(raw) matches Some(v) ==> v >= 0,
{
    let t = trim_spec(raw);
    lemma_num_millis_nonneg(t);
    if t.len() > 0 && !all_num_chars(t) && contains_char(t, ':') {
        let p = find_char(t, ':');
        if p != -1 {
            let rest = t.skip(p + 1);
            let q = find_char(rest, ':');
            lemma_num_millis_nonneg(t.take(p));
            lemma_num_millis_nonneg(rest);
            if q != -1 {
                lemma_num_millis_nonneg(rest.take(q));
                lemma_num_millis_nonneg(rest.skip(q + 1));
            }
        }
    } else {
        lemma_scan_nonneg(t, Seq::empty());
    }
}

/// Scans the composite form in `v[lo .. hi]`: the single-pass state
/// machine with a pending number buffer and a running total. Returns the
/// millisecond total, or `None` when the scan fails or the total does
/// not fit.
fn parse_complex_format(v: &Vec<char>, lo: usize, hi: usize) -> (r: Option<i64>)
    requires
        lo <= hi <= v@.len(),
    ensures
        ({
            let t = v@.subrange(lo as int, hi as int);
            match r {
                Some(x) => scan_millis(t, Seq::empty(), 0) == Some(x as int) && x >= 0,
                None => scan_millis(t, Seq::empty(), 0) is None || (scan_millis(t, Seq::empty(), 0)
                    matches Some(w) && w > i64::MAX),
            }
        }),
{
    let ghost t = v@.subrange(lo as int, hi as int);
    let mut buf: Vec<char> = Vec::new();
    let mut total: i64 = 0;
    let mut i: usize = lo;
    proof {
        assert(t.skip(0) =~= t);
    }
    while i < hi
        invariant
            lo <= i <= hi <= v@.len(),
            t == v@.subrange(lo as int, hi as int),
            total >= 0,
            scan_millis(t, Seq::empty(), 0) == scan_millis(
                t.skip(i as int - lo as int),
                buf@,
                total as int,
            ),
        decreases hi - i,
    {
        let c = v[i];
        let ghost rest = t.skip(i as int - lo as int);
        proof {
            assert(rest[0] == v@[i as int]);
            assert(rest.skip(1) =~= t.skip(i as int + 1 - lo as int));
        }
        if c >= '0' && c <= '9' || c == '.' {
            buf.push(c);
            i = i + 1;
        } else if c == 'h' || c == 'm' || c == 's' {
            proof {
                assert(buf@.subrange(0, buf@.len() as int) =~= buf@);
            }
            let n = parse_number(&buf, 0, buf.len());
            let f: i64 = if c == 'h' {
                3600
            } else if c == 'm' {
                60
            } else {
                1
            };
            match n {
                None => {
                    proof {
                        match num_millis(buf@) {
                            Some(w) => {
                                // the buffer's value alone is already too large
                                lemma_num_millis_nonneg(buf@);
                                lemma_scan_nonneg(rest.skip(1), Seq::empty());
                                lemma_scan_offset(
                                    rest.skip(1),
                                    Seq::empty(),
                                    0,
                                    total as int + w * unit_factor(c),
                                );
                            },
                            None => {},
                        }
                    }
                    return None;
                },
                Some(nv) => {
                    let ghost w = nv as int;
                    let step = match nv.checked_mul(f) {
                        Some(st) => st,
                        None => {
                            proof {
                                lemma_scan_nonneg(rest.skip(1), Seq::empty());
                                lemma_scan_offset(
                                    rest.skip(1),
                                    Seq::empty(),
                                    0,
                                    total as int + w * unit_factor(c),
                                );
                            }
                            return None;
                        },
                    };
                    let new_total = match total.checked_add(step) {
                        Some(nt) => nt,
                        None => {
                            proof {
                                lemma_scan_nonneg(rest.skip(1), Seq::empty());
                                lemma_scan_offset(
                                    rest.skip(1),
                                    Seq::empty(),
                                    0,
                                    total as int + w * unit_factor(c),
                                );
                            }
                            return None;
                        },
                    };
                    total = new_total;
                    buf = Vec::new();
                    i = i + 1;
                },
            }
        } else if char_is_space(c) {
            i = i + 1;
        } else {
            assert(scan_millis(t, Seq::empty(), 0) is None);
            return None;
        }
    }
    proof {
        assert(t.skip(hi as int - lo as int) =~= Seq::<char>::empty());
        assert(buf@.subrange(0, buf@.len() as int) =~= buf@);
    }
    if buf.len() == 0 {
        return Some(total);
    }
    let n = parse_number(&buf, 0, buf.len());
    match n {
        None => {
            proof {
                lemma_num_millis_nonneg(buf@);
            }
            None
        },
        Some(nv) => {
            match total.checked_add(nv) {
                Some(val) => Some(val),
                None => None,
            }
        },
    }
}

/// Parses and formats the time values used for clipping: plain seconds,
/// `MM:SS`, `HH:MM:SS`, and unit-suffixed composites such as `1h30m45s`.
#[derive(Debug, Clone)]
pub struct TimeParser;

/// The duration of the range from `start` to `end` milliseconds, or
/// `None` when the range is empty or reversed.
pub open spec fn spec_validate_range(start: int, end: int) -> Option<int> {
    if end <= start {
        None
    } else {
        Some(end - start)
    }
}

/// For every non-negative time `s`, the empty range at `s` and every
/// reversed range ending below `s` are rejected, and the range from zero
/// up to a positive `s` is accepted with duration `s`.
pub proof fn lemma_validate_range_law(s: int, eps: int)
    requires
        s >= 0,
        eps > 0,
    ensures
        spec_validate_range(s, s) is None,
        spec_validate_range(s, s - eps) is None,
        s > 0 ==> spec_validate_range(0, s) == Some(s),
{
}

/// `MM-SS` with the milliseconds `m`: total whole minutes, then whole
/// seconds within the minute, both zero-padded to width two.
pub open spec fn format_time_spec(m: int) -> Seq<char> {
    let secs = m / 1000;
    dec_pad2((secs / 60) as nat) + seq!['-'] + dec_pad2((secs % 60) as nat)
}

/// `HH:MM:SS` when the whole-hour part of the milliseconds `m` is
/// nonzero, else `MM:SS`; every part zero-padded to width two.
pub open spec fn format_time_readable_spec(m: int) -> Seq<char> {
    let secs = m / 1000;
    if secs / 3600 > 0 {
        dec_pad2((secs / 3600) as nat) + seq![':'] + dec_pad2(((secs % 3600) / 60) as nat)
            + seq![':'] + dec_pad2((secs % 60) as nat)
    } else {
        dec_pad2((secs / 60) as nat) + seq![':'] + dec_pad2((secs % 60) as nat)
    }
}

impl TimeParser {
    /// Parses a time expression into seconds.
    ///
    /// Returns exactly the value of the grammar `parse_spec` on the
    /// input; fails with `InvalidTimeFormat`, carrying the trimmed text,
    /// exactly when the grammar rejects the input or its value exceeds
    /// the millisecond range.
    pub fn parse_to_seconds(time_str: &str) -> (r: Result<Seconds, VideoClipError>)
        ensures
            r matches Ok(sec) ==> parse_spec(time_str@) == Some(sec.millis as int) && sec.millis
                >= 0,
            r matches Err(e) ==> (parse_spec(time_str@) is None || (parse_spec(time_str@)
                matches Some(w) && w > i64::MAX)) && (e matches VideoClipError::InvalidTimeFormat(
                txt,
            ) && txt@ == trim_spec(time_str@)),
    {
        let v = chars_of(time_str);
        let (lo, hi) = trim_range(&v);
        let ghost t = trim_spec(time_str@);
        proof {
            assert(t == v@.subrange(lo as int, hi as int));
        }
        if lo == hi {
            assert(t.len() == 0);
            return Ok(Seconds::zero());
        }
        if all_num_range(&v, lo, hi) {
            // plain number of seconds
            match parse_number(&v, lo, hi) {
                Some(ms) => Ok(Seconds::from_millis(ms)),
                None => Err(Self::invalid_format(time_str, lo, hi)),
            }
        } else if range_contains(&v, lo, hi, ':') {
            Self::parse_colon_form(time_str, &v, lo, hi)
        } else if range_contains(&v, lo, hi, 'h') || range_contains(&v, lo, hi, 'm')
            || range_contains(&v, lo, hi, 's') {
            match parse_complex_format(&v, lo, hi) {
                Some(ms) => Ok(Seconds::from_millis(ms)),
                None => Err(Self::invalid_format(time_str, lo, hi)),
            }
        } else {
            Err(Self::invalid_format(time_str, lo, hi))
        }
    }

    /// The `InvalidTimeFormat` error carrying `time_str[lo .. hi]`.
    fn invalid_format(time_str: &str, lo: usize, hi: usize) -> (e: VideoClipError)
        requires
            lo <= hi <= time_str@.len(),
        ensures
            e matches VideoClipError::InvalidTimeFormat(txt) && txt@ == time_str@.subrange(
                lo as int,
                hi as int,
            ),
    {
        VideoClipError::InvalidTimeFormat(String::from_str(time_str.substring_char(lo, hi)))
    }

    /// Parses the colon form in `v[lo .. hi]` against `colon_millis`.
    fn parse_colon_form(time_str: &str, v: &Vec<char>, lo: usize, hi: usize) -> (r: Result<
        Seconds,
        VideoClipError,
    >)
        requires
            lo < hi <= v@.len(),
            v@ == time_str@,
            contains_char(v@.subrange(lo as int, hi as int), ':'),
        ensures
            ({
                let t = v@.subrange(lo as int, hi as int);
                (r matches Ok(sec) ==> colon_millis(t) == Some(sec.millis as int) && sec.millis
                    >= 0) && (r matches Err(e) ==> (colon_millis(t) is None || (colon_millis(t)
                    matches Some(w) && w > i64::MAX)) && (e
                    matches VideoClipError::InvalidTimeFormat(txt) && txt@ == t))
            }),
    {
        let ghost t = v@.subrange(lo as int, hi as int);
        let p = match find_in_range(v, lo, hi, ':') {
            Some(p) => p,
            None => {
                proof {
                    lemma_find_char(t, ':');
                }
                assert(false);
                return Err(Self::invalid_format(time_str, lo, hi));
            },
        };
        let ghost rest = t.skip(p as int - lo as int + 1);
        proof {
            assert(rest =~= v@.subrange(p as int + 1, hi as int));
            assert(t.take(p as int - lo as int) =~= v@.subrange(lo as int, p as int));
            lemma_num_millis_nonneg(t.take(p as int - lo as int));
            lemma_num_millis_nonneg(rest);
        }
        match find_in_range(v, p + 1, hi, ':') {
            None => {
                // two fields: minutes and seconds
                let a = parse_number(v, lo, p);
                let b = parse_number(v, p + 1, hi);
                match (a, b) {
                    (Some(m), Some(s2)) => {
                        let ms = match m.checked_mul(60) {
                            Some(x) => x,
                            None => {
                                return Err(Self::invalid_format(time_str, lo, hi));
                            },
                        };
                        match ms.checked_add(s2) {
                            Some(val) => Ok(Seconds::from_millis(val)),
                            None => Err(Self::invalid_format(time_str, lo, hi)),
                        }
                    },
                    _ => Err(Self::invalid_format(time_str, lo, hi)),
                }
            },
            Some(q) => {
                let ghost rest2 = rest.skip(q as int - p as int);
                proof {
                    assert(find_char(rest, ':') == q as int - p as int - 1);
                    assert(rest2 =~= v@.subrange(q as int + 1, hi as int));
                    assert(rest.take(q as int - p as int - 1) =~= v@.subrange(
                        p as int + 1,
                        q as int,
                    ));
                    lemma_num_millis_nonneg(rest.take(q as int - p as int - 1));
                    lemma_num_millis_nonneg(rest2);
                }
                match find_in_range(v, q + 1, hi, ':') {
                    Some(_) => {
                        // four or more fields
                        assert(colon_millis(t) is None);
                        Err(Self::invalid_format(time_str, lo, hi))
                    },
                    None => {
                        let a = parse_number(v, lo, p);
                        let b = parse_number(v, p + 1, q);
                        let c = parse_number(v, q + 1, hi);
                        match (a, b, c) {
                            (Some(h), Some(m), Some(s2)) => {
                                let hs = match h.checked_mul(3600) {
                                    Some(x) => x,
                                    None => {
                                        return Err(Self::invalid_format(time_str, lo, hi));
                                    },
                                };
                                let ms = match m.checked_mul(60) {
                                    Some(x) => x,
                                    None => {
                                        return Err(Self::invalid_format(time_str, lo, hi));
                                    },
                                };
                                let hm = match hs.checked_add(ms) {
                                    Some(x) => x,
                                    None => {
                                        return Err(Self::invalid_format(time_str, lo, hi));
                                    },
                                };
                                match hm.checked_add(s2) {
                                    Some(val) => Ok(Seconds::from_millis(val)),
                                    None => Err(Self::invalid_format(time_str, lo, hi)),
                                }
                            },
                            _ => Err(Self::invalid_format(time_str, lo, hi)),
                        }
                    },
                }
            },
        }
    }

    /// Renders seconds as `MM-SS` for filesystem-safe names: total whole
    /// minutes (not capped at 59), then whole seconds within the minute,
    /// both zero-padded to width two; fractions are truncated.
    pub fn format_time(seconds: Seconds) -> (r: String)
        requires
            seconds.millis >= 0,
        ensures
            r@ == format_time_spec(seconds.millis as int),
    {
        let secs: i64 = seconds.millis / 1000;
        let mins: i64 = secs / 60;
        let rem: i64 = secs % 60;
        let mut r = u64_to_pad2(mins as u64);
        r.append("-");
        let rs = u64_to_pad2(rem as u64);
        r.append(rs.as_str());
        proof {
            reveal_strlit("-");
            assert(r@ =~= format_time_spec(seconds.millis as int));
        }
        r
    }

    /// Renders seconds as `HH:MM:SS` when there is a whole hour, else
    /// `MM:SS`; every part zero-padded to width two; fractions are
    /// truncated.
    pub fn format_time_readable(seconds: Seconds) -> (r: String)
        requires
            seconds.millis >= 0,
        ensures
            r@ == format_time_readable_spec(seconds.millis as int),
    {
        let secs: i64 = seconds.millis / 1000;
        let hours: i64 = secs / 3600;
        let rem_secs: i64 = secs % 60;
        if hours > 0 {
            let mins: i64 = (secs % 3600) / 60;
            let mut r = u64_to_pad2(hours as u64);
            r.append(":");
            let m2 = u64_to_pad2(mins as u64);
            r.append(m2.as_str());
            r.append(":");
            let s2 = u64_to_pad2(rem_secs as u64);
            r.append(s2.as_str());
            proof {
                reveal_strlit(":");
                assert(r@ =~= format_time_readable_spec(seconds.millis as int));
            }
            r
        } else {
            let mins: i64 = secs / 60;
            let mut r = u64_to_pad2(mins as u64);
            r.append(":");
            let s2 = u64_to_pad2(rem_secs as u64);
            r.append(s2.as_str());
            proof {
                reveal_strlit(":");
                assert(r@ =~= format_time_readable_spec(seconds.millis as int));
            }
            r
        }
    }

    /// Checks that `end_seconds` lies strictly after `start_seconds` and
    /// returns the duration between them. Fails with `InvalidTimeRange`,
    /// carrying the pair, exactly when `end_seconds <= start_seconds`;
    /// zero-length ranges are rejected.
    pub fn validate_time_range(start_seconds: Seconds, end_seconds: Seconds) -> (r: Result<
        Seconds,
        VideoClipError,
    >)
        requires
            end_seconds.millis - start_seconds.millis <= i64::MAX,
        ensures
            ({
                match spec_validate_range(start_seconds.millis as int, end_seconds.millis as int) {
                    Some(d) => r matches Ok(x) && x.millis == d,
                    None => r matches Err(e) && e matches VideoClipError::InvalidTimeRange {
                        start,
                        end,
                    } && start == start_seconds && end == end_seconds,
                }
            }),
    {
        if end_seconds.millis <= start_seconds.millis {
            Err(
                VideoClipError::InvalidTimeRange {
                    start: start_seconds,
                    end: end_seconds,
                },
            )
        } else {
            Ok(Seconds::from_millis(end_seconds.millis - start_seconds.millis))
        }
    }
}

} // verus!
