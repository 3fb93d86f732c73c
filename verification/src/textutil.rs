//! Small verified text utilities: decimal parsing and formatting, trimming,
//! and string comparison, shared by the scene parser, the command-line value
//! parsers and the reporting helpers.

use vstd::prelude::*;
use vstd::string::StrSliceExecFns;
use vstd::string::StringExecFns;

verus! {

/// The characters treated as blank by `trim_spec`.
pub open spec fn is_blank(c: char) -> bool {
    c == ' ' || c == '\t' || c == '\n' || c == '\r'
}

pub open spec fn is_digit(c: char) -> bool {
    48 <= c as u32 <= 57
}

pub open spec fn digit_val(c: char) -> int {
    c as u32 - 48
}

pub open spec fn all_digits(s: Seq<char>) -> bool {
    forall|i: int| 0 <= i < s.len() ==> is_digit(#[trigger] s[i])
}

/// The value of a digit string, most significant digit first.
pub open spec fn digits_val(s: Seq<char>) -> int
    decreases s.len(),
{
    if s.len() == 0 {
        0
    } else {
        digits_val(s.drop_last()) * 10 + digit_val(s.last())
    }
}

/// What `str::parse::<u32>` accepts: an optional leading `+`, at least one
/// digit after it, and a value within range.
pub open spec fn parse_u32_spec(s: Seq<char>) -> Option<u32> {
    let body = if s.len() > 0 && s[0] == '+' {
        s.subrange(1, s.len() as int)
    } else {
        s
    };
    if body.len() == 0 || !all_digits(body) || digits_val(body) > u32::MAX {
        None
    } else {
        Some(digits_val(body) as u32)
    }
}

pub open spec fn parse_u64_spec(s: Seq<char>) -> Option<u64> {
    let body = if s.len() > 0 && s[0] == '+' {
        s.subrange(1, s.len() as int)
    } else {
        s
    };
    if body.len() == 0 || !all_digits(body) || digits_val(body) > u64::MAX {
        None
    } else {
        Some(digits_val(body) as u64)
    }
}

proof fn lemma_digits_val_nonneg(s: Seq<char>)
    requires
        all_digits(s),
    ensures
        digits_val(s) >= 0,
    decreases s.len(),
{
    if s.len() > 0 {
        assert(all_digits(s.drop_last()));
        lemma_digits_val_nonneg(s.drop_last());
    }
}

/// Extending a digit string on the right never shrinks its value.
proof fn lemma_digits_val_prefix(s: Seq<char>, k: int)
    requires
        all_digits(s),
        0 <= k <= s.len(),
    ensures
        digits_val(s) >= digits_val(s.subrange(0, k)),
    decreases s.len() - k,
{
    if k < s.len() {
        let t = s.subrange(0, k + 1);
        assert(t.drop_last() =~= s.subrange(0, k));
        assert(all_digits(s.subrange(0, k)));
        lemma_digits_val_nonneg(s.subrange(0, k));
        lemma_digits_val_prefix(s, k + 1);
    } else {
        assert(s.subrange(0, k) =~= s);
    }
}

/// The digit-accumulation loop shared by the integer parsers: returns the
/// value of `s` if `s` is all digits and the value stays within `bound`.
pub(crate) fn digits_value_upto(s: &str, start: usize, bound: u64) -> (r: Option<u64>)
    requires
        start <= s@.len(),
    ensures
        ({
            let body = s@.subrange(start as int, s@.len() as int);
            match r {
                Some(v) => body.len() > 0 && all_digits(body) && digits_val(body) == v && v
                    <= bound,
                None => body.len() == 0 || !all_digits(body) || digits_val(body) > bound,
            }
        }),
{
    let n = s.unicode_len();
    if start >= n {
        return None;
    }
    let ghost body = s@.subrange(start as int, s@.len() as int);
    let mut acc: u64 = 0;
    let mut i: usize = start;
    while i < n
        invariant
            start <= i <= n,
            n == s@.len(),
            body == s@.subrange(start as int, s@.len() as int),
            all_digits(body.subrange(0, i - start)),
            digits_val(body.subrange(0, i - start)) == acc,
            acc <= bound,
            bound <= u64::MAX,
        decreases n - i,
    {
        let c = s.get_char(i);
        let code = c as u32;
        if code < 48 || code > 57 {
            assert(body[i - start] == s@[i as int]);
            assert(!is_digit(body[i - start]));
            return None;
        }
        let d = (code - 48) as u64;
        proof {
            assert(body[i - start] == s@[i as int]);
            assert(body.subrange(0, i + 1 - start).drop_last() =~= body.subrange(
                0,
                i - start,
            ));
        }
        if acc > bound / 10 || (acc == bound / 10 && d > bound % 10) {
            // The prefix alone already exceeds the bound.
            proof {
                let pre = body.subrange(0, i + 1 - start);
                assert(all_digits(pre));
                assert(digits_val(pre) == acc * 10 + d);
                assert(acc * 10 + d > bound) by (nonlinear_arith)
                    requires
                        acc > bound / 10 || (acc == bound / 10 && d > bound % 10),
                        0 <= d <= 9,
                        0 <= acc,
                        0 <= bound,
                ;
                if all_digits(body) {
                    lemma_digits_val_prefix(body, i + 1 - start);
                }
            }
            return None;
        }
        proof {
            assert(acc * 10 + d <= bound) by (nonlinear_arith)
                requires
                    acc <= bound / 10,
                    acc == bound / 10 ==> d <= bound % 10,
                    0 <= d <= 9,
                    0 <= acc,
                    bound <= u64::MAX,
            ;
        }
        acc = acc * 10 + d;
        i = i + 1;
    }
    proof {
        assert(body.subrange(0, n - start) =~= body);
    }
    Some(acc)
}

/// What `str::parse::<u32>` returns on this text.
pub fn parse_u32(s: &str) -> (r: Option<u32>)
    ensures
        r == parse_u32_spec(s@),
{
    let n = s.unicode_len();
    let start: usize = if n > 0 && s.get_char(0) == '+' {
        1
    } else {
        0
    };
    proof {
        if start == 0 {
            assert(s@.subrange(0, s@.len() as int) =~= s@);
        }
    }
    match digits_value_upto(s, start, 0xffff_ffff) {
        Some(v) => Some(v as u32),
        None => None,
    }
}

/// What `str::parse::<u64>` returns on this text.
pub fn parse_u64(s: &str) -> (r: Option<u64>)
    ensures
        r == parse_u64_spec(s@),
{
    let n = s.unicode_len();
    let start: usize = if n > 0 && s.get_char(0) == '+' {
        1
    } else {
        0
    };
    proof {
        if start == 0 {
            assert(s@.subrange(0, s@.len() as int) =~= s@);
        }
    }
    match digits_value_upto(s, start, 0xffff_ffff_ffff_ffff) {
        Some(v) => Some(v),
        None => None,
    }
}

/// The decimal spelling of `n`, most significant digit first, no sign and no
/// leading zero (except for `n == 0` itself).
pub open spec fn dec_spec(n: int) -> Seq<char>
    decreases n,
{
    if n < 10 {
        seq![digit_char(n)]
    } else {
        dec_spec(n / 10) + seq![digit_char(n % 10)]
    }
}

pub open spec fn digit_char(d: int) -> char {
    if d == 0 {
        '0'
    } else if d == 1 {
        '1'
    } else if d == 2 {
        '2'
    } else if d == 3 {
        '3'
    } else if d == 4 {
        '4'
    } else if d == 5 {
        '5'
    } else if d == 6 {
        '6'
    } else if d == 7 {
        '7'
    } else if d == 8 {
        '8'
    } else {
        '9'
    }
}

fn digit_lit(d: u64) -> (r: &'static str)
    requires
        d < 10,
    ensures
        r@ =~= seq![digit_char(d as int)],
{
    proof {
        reveal_strlit("0");
        reveal_strlit("1");
        reveal_strlit("2");
        reveal_strlit("3");
        reveal_strlit("4");
        reveal_strlit("5");
        reveal_strlit("6");
        reveal_strlit("7");
        reveal_strlit("8");
        reveal_strlit("9");
    }
    if d == 0 {
        "0"
    } else if d == 1 {
        "1"
    } else if d == 2 {
        "2"
    } else if d == 3 {
        "3"
    } else if d == 4 {
        "4"
    } else if d == 5 {
        "5"
    } else if d == 6 {
        "6"
    } else if d == 7 {
        "7"
    } else if d == 8 {
        "8"
    } else {
        "9"
    }
}

/// Formats `n` in decimal.
pub fn dec_str(n: u64) -> (r: String)
    ensures
        r@ == dec_spec(n as int),
    decreases n,
{
    if n < 10 {
        String::from_str(digit_lit(n))
    } else {
        let mut s = dec_str(n / 10);
        s.append(digit_lit(n % 10));
        proof {
            assert(s@ =~= dec_spec(n as int));
        }
        s
    }
}

/// Two digits, zero padded.
pub open spec fn pad2_spec(n: int) -> Seq<char> {
    if n < 10 {
        seq!['0'] + dec_spec(n)
    } else {
        dec_spec(n)
    }
}

pub fn pad2_str(n: u64) -> (r: String)
    requires
        n < 100,
    ensures
        r@ == pad2_spec(n as int),
{
    if n < 10 {
        proof {
            reveal_strlit("0");
        }
        let mut s = String::from_str("0");
        s.append(digit_lit(n));
        proof {
            assert(s@ =~= pad2_spec(n as int));
        }
        s
    } else {
        dec_str(n)
    }
}

/// A duration in whole seconds rendered as `H:MM:SS`.
pub open spec fn fmt_time_spec(secs: int) -> Seq<char> {
    dec_spec(secs / 3600) + seq![':'] + pad2_spec((secs % 3600) / 60) + seq![':']
        + pad2_spec(secs % 60)
}

/// Renders a whole-second duration as `H:MM:SS`, minutes and seconds padded
/// to two digits.
pub fn fmt_time(secs: u64) -> (r: String)
    ensures
        r@ == fmt_time_spec(secs as int),
{
    proof {
        reveal_strlit(":");
    }
    let mut s = dec_str(secs / 3600);
    s.append(":");
    let m = pad2_str((secs % 3600) / 60);
    s.append(m.as_str());
    s.append(":");
    let sec = pad2_str(secs % 60);
    s.append(sec.as_str());
    proof {
        assert(s@ =~= fmt_time_spec(secs as int));
    }
    s
}

/// Character-for-character string equality.
pub fn str_eq(a: &str, b: &str) -> (r: bool)
    ensures
        r == (a@ == b@),
{
    let na = a.unicode_len();
    let nb = b.unicode_len();
    if na != nb {
        return false;
    }
    let mut i: usize = 0;
    while i < na
        invariant
            0 <= i <= na,
            na == a@.len(),
            na == b@.len(),
            forall|k: int| 0 <= k < i ==> a@[k] == b@[k],
        decreases na - i,
    {
        if a.get_char(i) != b.get_char(i) {
            return false;
        }
        i = i + 1;
    }
    proof {
        assert(a@ =~= b@);
    }
    true
}

/// Index of the first non-blank character at or after `i`.
pub open spec fn first_non_blank(s: Seq<char>, i: int) -> int
    decreases s.len() - i,
{
    if i < 0 || i >= s.len() {
        s.len() as int
    } else if is_blank(s[i]) {
        first_non_blank(s, i + 1)
    } else {
        i
    }
}

/// One past the last non-blank character strictly before `j`.
pub open spec fn end_non_blank(s: Seq<char>, j: int) -> int
    decreases j,
{
    if j <= 0 || j > s.len() {
        0
    } else if is_blank(s[j - 1]) {
        end_non_blank(s, j - 1)
    } else {
        j
    }
}

/// What `str::trim` leaves: the text with leading and trailing blanks gone.
pub open spec fn trim_spec(s: Seq<char>) -> Seq<char> {
    let from = first_non_blank(s, 0);
    let to = end_non_blank(s, s.len() as int);
    if from <= to {
        s.subrange(from, to)
    } else {
        Seq::empty()
    }
}

proof fn lemma_end_non_blank_bounds(s: Seq<char>, j: int)
    requires
        0 <= j <= s.len(),
    ensures
        0 <= end_non_blank(s, j) <= j,
    decreases j,
{
    if j > 0 && is_blank(s[j - 1]) {
        lemma_end_non_blank_bounds(s, j - 1);
    }
}

fn is_blank_exec(c: char) -> (r: bool)
    ensures
        r == is_blank(c),
{
    c == ' ' || c == '\t' || c == '\n' || c == '\r'
}

/// The trimmed view of `s`, as `str::trim` computes it for blank characters.
pub fn trim<'a>(s: &'a str) -> (r: &'a str)
    ensures
        r@ == trim_spec(s@),
{
    let n = s.unicode_len();
    let mut i: usize = 0;
    while i < n && is_blank_exec(s.get_char(i))
        invariant
            0 <= i <= n,
            n == s@.len(),
            first_non_blank(s@, 0) == first_non_blank(s@, i as int),
        decreases n - i,
    {
        i = i + 1;
    }
    proof {
        assert(first_non_blank(s@, 0) == i);
    }
    let mut j: usize = n;
    while j > i && is_blank_exec(s.get_char(j - 1))
        invariant
            i <= j <= n,
            n == s@.len(),
            i == first_non_blank(s@, 0),
            end_non_blank(s@, n as int) == end_non_blank(s@, j as int),
        decreases j,
    {
        j = j - 1;
    }
    proof {
        if j > i {
            assert(end_non_blank(s@, j as int) == j);
        } else {
            lemma_end_non_blank_bounds(s@, j as int);
        }
    }
    if j <= i {
        proof {
            lemma_end_non_blank_bounds(s@, n as int);
        }
        let r = s.substring_char(i, i);
        proof {
            assert(r@ =~= trim_spec(s@));
        }
        r
    } else {
        let r = s.substring_char(i, j);
        proof {
            assert(r@ =~= trim_spec(s@));
        }
        r
    }
}

} // verus!
