//! The structured scene-text format: a JSON document tree, a mathematical
//! description of its grammar, and a parser proved to follow that
//! description exactly.
//!
//! Numbers are kept as their literal token text; the scene model stores them
//! unchanged and the rendering backend converts them to machine reals when it
//! uploads the scene.

use vstd::prelude::*;
use vstd::string::StrSliceExecFns;
use vstd::string::StringExecFns;
use crate::textutil::{first_non_blank, is_blank, is_digit};

verus! {

broadcast use vstd::std_specs::vec::axiom_vec_decreases_to_view, vstd::seq::axiom_seq_index_decreases;

/// The mathematical form of a document value.
pub enum JVal {
    Null,
    Bool(bool),
    /// A number, as its literal token.
    Num(Seq<char>),
    /// A string, with escapes decoded.
    Str(Seq<char>),
    Arr(Seq<JVal>),
    /// Members in document order; duplicate keys are kept as written.
    Obj(Seq<(Seq<char>, JVal)>),
}

/// A document value.
#[derive(Debug)]
pub enum Json {
    Null,
    Bool(bool),
    /// A number, as its literal token.
    Num(String),
    /// A string, with escapes decoded.
    Str(String),
    Arr(Vec<Json>),
    /// Members in document order; duplicate keys are kept as written.
    Obj(Vec<(String, Json)>),
}

pub open spec fn json_view(j: Json) -> JVal
    decreases j,
{
    match j {
        Json::Null => JVal::Null,
        Json::Bool(b) => JVal::Bool(b),
        Json::Num(t) => JVal::Num(t@),
        Json::Str(t) => JVal::Str(t@),
        Json::Arr(v) => JVal::Arr(json_views(v@)),
        Json::Obj(v) => JVal::Obj(json_members(v@)),
    }
}

pub open spec fn json_views(l: Seq<Json>) -> Seq<JVal>
    decreases l,
{
    if l.len() == 0 {
        Seq::empty()
    } else {
        seq![json_view(l[0])] + json_views(l.drop_first())
    }
}

pub open spec fn json_members(l: Seq<(String, Json)>) -> Seq<(Seq<char>, JVal)>
    decreases l,
{
    if l.len() == 0 {
        Seq::empty()
    } else {
        seq![(l[0].0@, json_view(l[0].1))] + json_members(l.drop_first())
    }
}

/// Element-wise reading of `json_views`.
pub proof fn lemma_json_views(l: Seq<Json>)
    ensures
        json_views(l).len() == l.len(),
        forall|i: int| 0 <= i < l.len() ==> json_views(l)[i] == json_view(l[i]),
    decreases l.len(),
{
    if l.len() > 0 {
        lemma_json_views(l.drop_first());
    }
}

/// Element-wise reading of `json_members`.
pub proof fn lemma_json_members(l: Seq<(String, Json)>)
    ensures
        json_members(l).len() == l.len(),
        forall|i: int| 0 <= i < l.len() ==> json_members(l)[i] == (l[i].0@, json_view(l[i].1)),
    decreases l.len(),
{
    if l.len() > 0 {
        lemma_json_members(l.drop_first());
    }
}

impl View for Json {
    type V = JVal;

    open spec fn view(&self) -> JVal {
        json_view(*self)
    }
}

pub open spec fn is_hex(c: char) -> bool {
    is_digit(c) || (97 <= c as u32 <= 102) || (65 <= c as u32 <= 70)
}

pub open spec fn hex_val(c: char) -> int {
    if is_digit(c) {
        c as u32 - 48
    } else if 97 <= c as u32 <= 102 {
        c as u32 - 87
    } else {
        c as u32 - 55
    }
}

/// The character with this scalar value.
pub open spec fn char_of_code(v: int) -> char {
    choose|c: char| (#[trigger] (c as u32)) == v
}

/// A scalar value a character may hold.
pub open spec fn valid_scalar(v: int) -> bool {
    (0 <= v < 0xD800) || (0xE000 <= v <= 0x10FFFF)
}

/// Four hex digits at `i`.
pub open spec fn is_hex4(s: Seq<char>, i: int) -> bool {
    0 <= i && i + 4 <= s.len() && is_hex(s[i]) && is_hex(s[i + 1]) && is_hex(s[i + 2]) && is_hex(
        s[i + 3],
    )
}

pub open spec fn hex4_val(s: Seq<char>, i: int) -> int {
    hex_val(s[i]) * 0x1000 + hex_val(s[i + 1]) * 0x100 + hex_val(s[i + 2]) * 0x10 + hex_val(
        s[i + 3],
    )
}

/// First index at or after `i` holding no decimal digit.
pub open spec fn end_digits(s: Seq<char>, i: int) -> int
    decreases s.len() - i,
{
    if i < 0 || i >= s.len() {
        s.len() as int
    } else if is_digit(s[i]) {
        end_digits(s, i + 1)
    } else {
        i
    }
}

/// A number token starting at `i`: an optional minus sign, an integer part
/// without leading zeros, an optional fraction and an optional exponent.
/// Yields the token and the index just after it.
pub open spec fn spec_number(s: Seq<char>, i: int) -> Option<(Seq<char>, int)> {
    let j0 = if 0 <= i < s.len() && s[i] == '-' {
        i + 1
    } else {
        i
    };
    if j0 < 0 || j0 >= s.len() || !is_digit(s[j0]) {
        None
    } else {
        let j1 = if s[j0] == '0' {
            j0 + 1
        } else {
            end_digits(s, j0)
        };
        let j2 = if j1 < s.len() && s[j1] == '.' {
            if j1 + 1 < s.len() && is_digit(s[j1 + 1]) {
                end_digits(s, j1 + 1)
            } else {
                -1
            }
        } else {
            j1
        };
        if j2 < 0 {
            None
        } else {
            let j3 = if j2 < s.len() && (s[j2] == 'e' || s[j2] == 'E') {
                let k = if j2 + 1 < s.len() && (s[j2 + 1] == '+' || s[j2 + 1] == '-') {
                    j2 + 2
                } else {
                    j2 + 1
                };
                if k < s.len() && is_digit(s[k]) {
                    end_digits(s, k)
                } else {
                    -1
                }
            } else {
                j2
            };
            if j3 < 0 {
                None
            } else {
                Some((s.subrange(i, j3), j3))
            }
        }
    }
}

/// The rest of a string literal, starting just after the opening quote (or
/// after any already-read part): the decoded characters and the index just
/// after the closing quote.
pub open spec fn spec_string_body(s: Seq<char>, i: int) -> Option<(Seq<char>, int)>
    decreases s.len() - i,
{
    if i < 0 || i >= s.len() {
        None
    } else if s[i] == '"' {
        Some((Seq::empty(), i + 1))
    } else if s[i] == '\\' {
        if i + 1 >= s.len() {
            None
        } else {
            let e = s[i + 1];
            if e == 'u' {
                if !is_hex4(s, i + 2) {
                    None
                } else {
                    let v1 = hex4_val(s, i + 2);
                    if 0xD800 <= v1 < 0xDC00 {
                        // A high surrogate must pair with a low one.
                        if i + 12 <= s.len() && s[i + 6] == '\\' && s[i + 7] == 'u' && is_hex4(
                            s,
                            i + 8,
                        ) && 0xDC00 <= hex4_val(s, i + 8) < 0xE000 {
                            let code = 0x10000 + (v1 - 0xD800) * 0x400 + (hex4_val(s, i + 8)
                                - 0xDC00);
                            match spec_string_body(s, i + 12) {
                                Some((tail, end)) => Some(
                                    (seq![char_of_code(code)] + tail, end),
                                ),
                                None => None,
                            }
                        } else {
                            None
                        }
                    } else if 0xDC00 <= v1 < 0xE000 {
                        None
                    } else {
                        match spec_string_body(s, i + 6) {
                            Some((tail, end)) => Some((seq![char_of_code(v1)] + tail, end)),
                            None => None,
                        }
                    }
                }
            } else {
                let decoded: Option<char> = if e == '"' {
                    Some('"')
                } else if e == '\\' {
                    Some('\\')
                } else if e == '/' {
                    Some('/')
                } else if e == 'b' {
                    Some('\u{8}')
                } else if e == 'f' {
                    Some('\u{c}')
                } else if e == 'n' {
                    Some('\n')
                } else if e == 'r' {
                    Some('\r')
                } else if e == 't' {
                    Some('\t')
                } else {
                    None
                };
                match decoded {
                    Some(c) => match spec_string_body(s, i + 2) {
                        Some((tail, end)) => Some((seq![c] + tail, end)),
                        None => None,
                    },
                    None => None,
                }
            }
        }
    } else if (s[i] as u32) < 32 {
        None
    } else {
        match spec_string_body(s, i + 1) {
            Some((tail, end)) => Some((seq![s[i]] + tail, end)),
            None => None,
        }
    }
}

/// A value starting at `i`, leading blanks allowed: the value and the index
/// just after it.
pub open spec fn spec_value(s: Seq<char>, i: int) -> Option<(JVal, int)>
    decreases s.len() - i, 0int,
{
    let j = first_non_blank(s, i);
    if j < i || j >= s.len() {
        None
    } else if s[j] == '{' {
        if j + 1 <= s.len() {
            match spec_obj(s, j + 1) {
                Some((members, end)) => Some((JVal::Obj(members), end)),
                None => None,
            }
        } else {
            None
        }
    } else if s[j] == '[' {
        if j + 1 <= s.len() {
            match spec_arr(s, j + 1) {
                Some((items, end)) => Some((JVal::Arr(items), end)),
                None => None,
            }
        } else {
            None
        }
    } else if s[j] == '"' {
        if j + 1 <= s.len() {
            match spec_string_body(s, j + 1) {
                Some((text, end)) => Some((JVal::Str(text), end)),
                None => None,
            }
        } else {
            None
        }
    } else if s[j] == 't' {
        if j + 4 <= s.len() && s[j + 1] == 'r' && s[j + 2] == 'u' && s[j + 3] == 'e' {
            Some((JVal::Bool(true), j + 4))
        } else {
            None
        }
    } else if s[j] == 'f' {
        if j + 5 <= s.len() && s[j + 1] == 'a' && s[j + 2] == 'l' && s[j + 3] == 's' && s[j + 4]
            == 'e' {
            Some((JVal::Bool(false), j + 5))
        } else {
            None
        }
    } else if s[j] == 'n' {
        if j + 4 <= s.len() && s[j + 1] == 'u' && s[j + 2] == 'l' && s[j + 3] == 'l' {
            Some((JVal::Null, j + 4))
        } else {
            None
        }
    } else if s[j] == '-' || is_digit(s[j]) {
        match spec_number(s, j) {
            Some((token, end)) => Some((JVal::Num(token), end)),
            None => None,
        }
    } else {
        None
    }
}

/// The inside of an array, starting just after `[`.
pub open spec fn spec_arr(s: Seq<char>, i: int) -> Option<(Seq<JVal>, int)>
    decreases s.len() - i, 1int,
{
    let j = first_non_blank(s, i);
    if j < i || j >= s.len() {
        None
    } else if s[j] == ']' {
        Some((Seq::empty(), j + 1))
    } else {
        match spec_value(s, i) {
            Some((first, end)) => if i < end && end <= s.len() {
                match spec_arr_tail(s, end) {
                    Some((rest, close)) => Some((seq![first] + rest, close)),
                    None => None,
                }
            } else {
                None
            },
            None => None,
        }
    }
}

/// After an array item: either `]`, or `,` and more items.
pub open spec fn spec_arr_tail(s: Seq<char>, i: int) -> Option<(Seq<JVal>, int)>
    decreases s.len() - i, 1int,
{
    let j = first_non_blank(s, i);
    if j < i || j >= s.len() {
        None
    } else if s[j] == ']' {
        Some((Seq::empty(), j + 1))
    } else if s[j] == ',' {
        match spec_value(s, j + 1) {
            Some((item, end)) => if j + 1 < end && end <= s.len() {
                match spec_arr_tail(s, end) {
                    Some((rest, close)) => Some((seq![item] + rest, close)),
                    None => None,
                }
            } else {
                None
            },
            None => None,
        }
    } else {
        None
    }
}

/// One `"key": value` member, starting at or after blanks before the key.
pub open spec fn spec_pair(s: Seq<char>, i: int) -> Option<((Seq<char>, JVal), int)>
    decreases s.len() - i, 1int,
{
    let j = first_non_blank(s, i);
    if j < i || j >= s.len() || s[j] != '"' {
        None
    } else {
        match spec_string_body(s, j + 1) {
            Some((key, kend)) => {
                let k = first_non_blank(s, kend);
                if k < j || k >= s.len() || s[k] != ':' {
                    None
                } else {
                    match spec_value(s, k + 1) {
                        Some((val, end)) => if i < end {
                            Some(((key, val), end))
                        } else {
                            None
                        },
                        None => None,
                    }
                }
            },
            None => None,
        }
    }
}

/// The inside of an object, starting just after `{`.
pub open spec fn spec_obj(s: Seq<char>, i: int) -> Option<(Seq<(Seq<char>, JVal)>, int)>
    decreases s.len() - i, 2int,
{
    let j = first_non_blank(s, i);
    if j < i || j >= s.len() {
        None
    } else if s[j] == '}' {
        Some((Seq::empty(), j + 1))
    } else {
        match spec_pair(s, i) {
            Some((first, end)) => if i < end && end <= s.len() {
                match spec_obj_tail(s, end) {
                    Some((rest, close)) => Some((seq![first] + rest, close)),
                    None => None,
                }
            } else {
                None
            },
            None => None,
        }
    }
}

/// After an object member: either `}`, or `,` and more members.
pub open spec fn spec_obj_tail(s: Seq<char>, i: int) -> Option<(Seq<(Seq<char>, JVal)>, int)>
    decreases s.len() - i, 2int,
{
    let j = first_non_blank(s, i);
    if j < i || j >= s.len() {
        None
    } else if s[j] == '}' {
        Some((Seq::empty(), j + 1))
    } else if s[j] == ',' {
        match spec_pair(s, j + 1) {
            Some((member, end)) => if j + 1 < end && end <= s.len() {
                match spec_obj_tail(s, end) {
                    Some((rest, close)) => Some((seq![member] + rest, close)),
                    None => None,
                }
            } else {
                None
            },
            None => None,
        }
    } else {
        None
    }
}

/// A whole document: one value with nothing but blanks around it.
pub open spec fn spec_doc(s: Seq<char>) -> Option<JVal> {
    match spec_value(s, 0) {
        Some((val, end)) => if first_non_blank(s, end) == s.len() {
            Some(val)
        } else {
            None
        },
        None => None,
    }
}

/// Relies on String::push: appends exactly one character.
#[verifier::external_body]
fn push_char(s: &mut String, c: char)
    ensures
        final (s)@ == old(s)@.push(c),
{
    s.push(c);
}

/// Relies on char::from_u32: a character exists exactly for the valid scalar
/// values, and holds the value it was made from.
#[verifier::external_body]
fn char_from_u32(v: u32) -> (r: Option<char>)
    ensures
        r is Some <==> valid_scalar(v as int),
        match r {
            Some(c) => c as u32 == v,
            None => true,
        },
{
    char::from_u32(v)
}

proof fn lemma_char_of_code(c: char)
    ensures
        char_of_code(c as u32 as int) == c,
{
    let v = c as u32 as int;
    assert(exists|c2: char| (#[trigger] (c2 as u32)) == v) by {
        assert((c as u32) == v);
    }
    let cc = char_of_code(v);
    assert((cc as u32) == v);
}

/// Splicing one character onto gathered output keeps the overall
/// concatenation.
proof fn lemma_extend(pre: Seq<char>, c: char, tail: Seq<char>)
    ensures
        pre + (seq![c] + tail) =~= pre.push(c) + tail,
{
}

fn is_digit_exec(c: char) -> (r: bool)
    ensures
        r == is_digit(c),
{
    let u = c as u32;
    48 <= u && u <= 57
}

fn is_blank_exec(c: char) -> (r: bool)
    ensures
        r == is_blank(c),
{
    c == ' ' || c == '\t' || c == '\n' || c == '\r'
}

/// First position at or after `i` holding something other than a blank.
fn skip_blank(s: &str, i: usize) -> (r: usize)
    requires
        i <= s@.len(),
    ensures
        r == first_non_blank(s@, i as int),
        i <= r <= s@.len(),
{
    let n = s.unicode_len();
    let mut k = i;
    while k < n && is_blank_exec(s.get_char(k))
        invariant
            i <= k <= n,
            n == s@.len(),
            first_non_blank(s@, i as int) == first_non_blank(s@, k as int),
        decreases n - k,
    {
        k = k + 1;
    }
    k
}

/// First position at or after `i` holding no decimal digit.
fn run_digits(s: &str, i: usize) -> (r: usize)
    requires
        i <= s@.len(),
    ensures
        r == end_digits(s@, i as int),
        i <= r <= s@.len(),
{
    let n = s.unicode_len();
    let mut k = i;
    while k < n && is_digit_exec(s.get_char(k))
        invariant
            i <= k <= n,
            n == s@.len(),
            end_digits(s@, i as int) == end_digits(s@, k as int),
        decreases n - k,
    {
        k = k + 1;
    }
    k
}

fn hex_digit(c: char) -> (r: Option<u32>)
    ensures
        match r {
            Some(v) => is_hex(c) && v == hex_val(c) && v < 16,
            None => !is_hex(c),
        },
{
    let u = c as u32;
    if 48 <= u && u <= 57 {
        Some(u - 48)
    } else if 97 <= u && u <= 102 {
        Some(u - 87)
    } else if 65 <= u && u <= 70 {
        Some(u - 55)
    } else {
        None
    }
}

fn parse_hex4(s: &str, i: usize) -> (r: Option<u32>)
    requires
        i <= s@.len(),
    ensures
        match r {
            Some(v) => is_hex4(s@, i as int) && v == hex4_val(s@, i as int) && v <= 0xFFFF,
            None => !is_hex4(s@, i as int),
        },
{
    let n = s.unicode_len();
    if n - i < 4 {
        return None;
    }
    let h0 = match hex_digit(s.get_char(i)) {
        Some(v) => v,
        None => {
            return None;
        },
    };
    let h1 = match hex_digit(s.get_char(i + 1)) {
        Some(v) => v,
        None => {
            return None;
        },
    };
    let h2 = match hex_digit(s.get_char(i + 2)) {
        Some(v) => v,
        None => {
            return None;
        },
    };
    let h3 = match hex_digit(s.get_char(i + 3)) {
        Some(v) => v,
        None => {
            return None;
        },
    };
    Some(h0 * 0x1000 + h1 * 0x100 + h2 * 0x10 + h3)
}

/// The rest of a string literal, after the opening quote: decodes escapes
/// until the closing quote.
fn parse_string_body(s: &str, start: usize) -> (r: Option<(String, usize)>)
    requires
        start <= s@.len(),
    ensures
        match r {
            Some((out, e)) => spec_string_body(s@, start as int) == Some((out@, e as int))
                && start < e <= s@.len(),
            None => spec_string_body(s@, start as int) is None,
        },
{
    let n = s.unicode_len();
    let mut out = String::new();
    let mut i = start;
    loop
        invariant
            start <= i <= n,
            n == s@.len(),
            ({
                let full = spec_string_body(s@, start as int);
                match spec_string_body(s@, i as int) {
                    Some((tail, e)) => full == Some((out@ + tail, e)),
                    None => full is None,
                }
            }),
        decreases n - i,
    {
        if i >= n {
            return None;
        }
        let c = s.get_char(i);
        if c == '"' {
            proof {
                assert(out@ + Seq::<char>::empty() =~= out@);
            }
            return Some((out, i + 1));
        }
        if c == '\\' {
            if i + 1 >= n {
                return None;
            }
            let esc = s.get_char(i + 1);
            if esc == 'u' {
                let v1 = match parse_hex4(s, i + 2) {
                    Some(v) => v,
                    None => {
                        return None;
                    },
                };
                if v1 >= 0xD800 && v1 < 0xDC00 {
                    if n - i < 12 {
                        return None;
                    }
                    if s.get_char(i + 6) != '\\' || s.get_char(i + 7) != 'u' {
                        return None;
                    }
                    let v2 = match parse_hex4(s, i + 8) {
                        Some(v) => v,
                        None => {
                            return None;
                        },
                    };
                    if !(v2 >= 0xDC00 && v2 < 0xE000) {
                        return None;
                    }
                    let code = 0x10000 + (v1 - 0xD800) * 0x400 + (v2 - 0xDC00);
                    let ch = char_from_u32(code).unwrap();
                    proof {
                        lemma_char_of_code(ch);
                        if let Some((tail, e2)) = spec_string_body(s@, i + 12) {
                            lemma_extend(out@, ch, tail);
                        }
                    }
                    push_char(&mut out, ch);
                    i = i + 12;
                } else if v1 >= 0xDC00 && v1 < 0xE000 {
                    return None;
                } else {
                    let ch = char_from_u32(v1).unwrap();
                    proof {
                        lemma_char_of_code(ch);
                        if let Some((tail, e2)) = spec_string_body(s@, i + 6) {
                            lemma_extend(out@, ch, tail);
                        }
                    }
                    push_char(&mut out, ch);
                    i = i + 6;
                }
            } else {
                let decoded: char = if esc == '"' {
                    '"'
                } else if esc == '\\' {
                    '\\'
                } else if esc == '/' {
                    '/'
                } else if esc == 'b' {
                    '\u{8}'
                } else if esc == 'f' {
                    '\u{c}'
                } else if esc == 'n' {
                    '\n'
                } else if esc == 'r' {
                    '\r'
                } else if esc == 't' {
                    '\t'
                } else {
                    return None;
                };
                proof {
                    if let Some((tail, e2)) = spec_string_body(s@, i + 2) {
                        lemma_extend(out@, decoded, tail);
                    }
                }
                push_char(&mut out, decoded);
                i = i + 2;
            }
        } else if (c as u32) < 32 {
            return None;
        } else {
            proof {
                if let Some((tail, e2)) = spec_string_body(s@, i + 1) {
                    lemma_extend(out@, c, tail);
                }
            }
            push_char(&mut out, c);
            i = i + 1;
        }
    }
}

proof fn lemma_end_digits_bounds(s: Seq<char>, i: int)
    requires
        0 <= i <= s.len(),
    ensures
        i <= end_digits(s, i) <= s.len(),
    decreases s.len() - i,
{
    if i < s.len() && is_digit(s[i]) {
        lemma_end_digits_bounds(s, i + 1);
    }
}

/// A number token, read as `spec_number` describes.
fn parse_number_token(s: &str, i: usize) -> (r: Option<(String, usize)>)
    requires
        i <= s@.len(),
    ensures
        match r {
            Some((t, e)) => spec_number(s@, i as int) == Some((t@, e as int)) && i < e
                <= s@.len(),
            None => spec_number(s@, i as int) is None,
        },
{
    let n = s.unicode_len();
    let j0 = if i < n && s.get_char(i) == '-' {
        i + 1
    } else {
        i
    };
    if j0 >= n {
        return None;
    }
    let c0 = s.get_char(j0);
    if !is_digit_exec(c0) {
        return None;
    }
    let j1 = if c0 == '0' {
        j0 + 1
    } else {
        proof {
            lemma_end_digits_bounds(s@, j0 + 1);
        }
        run_digits(s, j0)
    };
    let j2 = if j1 < n && s.get_char(j1) == '.' {
        if j1 + 1 < n && is_digit_exec(s.get_char(j1 + 1)) {
            proof {
                lemma_end_digits_bounds(s@, j1 + 2);
            }
            run_digits(s, j1 + 1)
        } else {
            return None;
        }
    } else {
        j1
    };
    let j3 = if j2 < n && (s.get_char(j2) == 'e' || s.get_char(j2) == 'E') {
        let k = if j2 + 1 < n && (s.get_char(j2 + 1) == '+' || s.get_char(j2 + 1) == '-') {
            j2 + 2
        } else {
            j2 + 1
        };
        if k < n && is_digit_exec(s.get_char(k)) {
            run_digits(s, k)
        } else {
            return None;
        }
    } else {
        j2
    };
    let t = s.substring_char(i, j3);
    Some((String::from_str(t), j3))
}

proof fn lemma_json_views_snoc(l: Seq<Json>, x: Json)
    ensures
        json_views(l.push(x)) == json_views(l) + seq![json_view(x)],
    decreases l.len(),
{
    if l.len() == 0 {
        assert(l.push(x)[l.len() as int] == x);
        assert(l.push(x).drop_first() =~= l);
        assert(json_views(l.push(x)) =~= json_views(l) + seq![json_view(x)]);
    } else {
        assert(l.push(x).drop_first() =~= l.drop_first().push(x));
        lemma_json_views_snoc(l.drop_first(), x);
        assert(l.push(x)[0] == l[0]);
        assert(json_views(l.push(x)) == seq![json_view(l[0])] + (json_views(l.drop_first())
            + seq![json_view(x)]));
        assert(json_views(l) == seq![json_view(l[0])] + json_views(l.drop_first()));
        assert(seq![json_view(l[0])] + (json_views(l.drop_first()) + seq![json_view(x)]) =~= (
        seq![json_view(l[0])] + json_views(l.drop_first())) + seq![json_view(x)]);
    }
}

proof fn lemma_json_members_snoc(l: Seq<(String, Json)>, x: (String, Json))
    ensures
        json_members(l.push(x)) == json_members(l) + seq![(x.0@, json_view(x.1))],
    decreases l.len(),
{
    if l.len() == 0 {
        assert(l.push(x)[l.len() as int] == x);
        assert(l.push(x).drop_first() =~= l);
        assert(json_members(l.push(x)) =~= json_members(l) + seq![(x.0@, json_view(x.1))]);
    } else {
        assert(l.push(x).drop_first() =~= l.drop_first().push(x));
        lemma_json_members_snoc(l.drop_first(), x);
        assert(l.push(x)[0] == l[0]);
        assert(json_members(l.push(x)) == seq![(l[0].0@, json_view(l[0].1))] + (json_members(
            l.drop_first(),
        ) + seq![(x.0@, json_view(x.1))]));
        assert(json_members(l) == seq![(l[0].0@, json_view(l[0].1))] + json_members(
            l.drop_first(),
        ));
        assert(seq![(l[0].0@, json_view(l[0].1))] + (json_members(l.drop_first()) + seq![
            (x.0@, json_view(x.1)),
        ]) =~= (seq![(l[0].0@, json_view(l[0].1))] + json_members(l.drop_first())) + seq![
            (x.0@, json_view(x.1)),
        ]);
    }
}

/// A value, leading blanks allowed.
fn parse_value_at(s: &str, i: usize) -> (r: Option<(Json, usize)>)
    requires
        i <= s@.len(),
    ensures
        match r {
            Some((v, e)) => spec_value(s@, i as int) == Some((json_view(v), e as int)) && i < e
                <= s@.len(),
            None => spec_value(s@, i as int) is None,
        },
    decreases s@.len() - i, 3int,
{
    let n = s.unicode_len();
    let j = skip_blank(s, i);
    if j >= n {
        return None;
    }
    let c = s.get_char(j);
    if c == '{' {
        match parse_obj_body(s, j + 1) {
            Some((members, e)) => Some((Json::Obj(members), e)),
            None => None,
        }
    } else if c == '[' {
        match parse_arr_body(s, j + 1) {
            Some((items, e)) => Some((Json::Arr(items), e)),
            None => None,
        }
    } else if c == '"' {
        match parse_string_body(s, j + 1) {
            Some((text, e)) => Some((Json::Str(text), e)),
            None => None,
        }
    } else if c == 't' {
        if n - j >= 4 && s.get_char(j + 1) == 'r' && s.get_char(j + 2) == 'u' && s.get_char(j + 3)
            == 'e' {
            Some((Json::Bool(true), j + 4))
        } else {
            None
        }
    } else if c == 'f' {
        if n - j >= 5 && s.get_char(j + 1) == 'a' && s.get_char(j + 2) == 'l' && s.get_char(j + 3)
            == 's' && s.get_char(j + 4) == 'e' {
            Some((Json::Bool(false), j + 5))
        } else {
            None
        }
    } else if c == 'n' {
        if n - j >= 4 && s.get_char(j + 1) == 'u' && s.get_char(j + 2) == 'l' && s.get_char(j + 3)
            == 'l' {
            Some((Json::Null, j + 4))
        } else {
            None
        }
    } else if c == '-' || is_digit_exec(c) {
        match parse_number_token(s, j) {
            Some((t, e)) => Some((Json::Num(t), e)),
            None => None,
        }
    } else {
        None
    }
}

/// The items of an array, after the opening bracket.
fn parse_arr_body(s: &str, i: usize) -> (r: Option<(Vec<Json>, usize)>)
    requires
        i <= s@.len(),
    ensures
        match r {
            Some((items, e)) => spec_arr(s@, i as int) == Some((json_views(items@), e as int))
                && i < e <= s@.len(),
            None => spec_arr(s@, i as int) is None,
        },
    decreases s@.len() - i, 4int,
{
    let n = s.unicode_len();
    let j = skip_blank(s, i);
    if j >= n {
        return None;
    }
    if s.get_char(j) == ']' {
        let items: Vec<Json> = Vec::new();
        proof {
            assert(json_views(items@) =~= Seq::<JVal>::empty());
        }
        return Some((items, j + 1));
    }
    let mut items: Vec<Json> = Vec::new();
    let mut cur: usize;
    match parse_value_at(s, i) {
        None => {
            return None;
        },
        Some((v, e)) => {
            proof {
                lemma_json_views_snoc(items@, v);
                assert(json_views(items@) =~= Seq::<JVal>::empty());
            }
            items.push(v);
            cur = e;
        },
    }
    proof {
        assert(json_views(items@) =~= seq![json_view(items@[0])]);
    }
    loop
        invariant
            i < cur <= n,
            n == s@.len(),
            ({
                let full = spec_arr(s@, i as int);
                match spec_arr_tail(s@, cur as int) {
                    Some((rest, close)) => full == Some((json_views(items@) + rest, close)),
                    None => full is None,
                }
            }),
        decreases n - cur,
    {
        let j2 = skip_blank(s, cur);
        if j2 >= n {
            return None;
        }
        let c2 = s.get_char(j2);
        if c2 == ']' {
            proof {
                assert(json_views(items@) + Seq::<JVal>::empty() =~= json_views(items@));
            }
            return Some((items, j2 + 1));
        }
        if c2 != ',' {
            return None;
        }
        match parse_value_at(s, j2 + 1) {
            None => {
                return None;
            },
            Some((v, e)) => {
                proof {
                    lemma_json_views_snoc(items@, v);
                    if let Some((rest2, close2)) = spec_arr_tail(s@, e as int) {
                        assert((json_views(items@) + seq![json_view(v)]) + rest2 =~= json_views(
                            items@,
                        ) + (seq![json_view(v)] + rest2));
                    }
                }
                items.push(v);
                cur = e;
            },
        }
    }
}

/// One `"key": value` member.
fn parse_pair(s: &str, i: usize) -> (r: Option<((String, Json), usize)>)
    requires
        i <= s@.len(),
    ensures
        match r {
            Some((member, e)) => spec_pair(s@, i as int) == Some(
                ((member.0@, json_view(member.1)), e as int),
            ) && i < e <= s@.len(),
            None => spec_pair(s@, i as int) is None,
        },
    decreases s@.len() - i, 4int,
{
    let n = s.unicode_len();
    let j = skip_blank(s, i);
    if j >= n {
        return None;
    }
    if s.get_char(j) != '"' {
        return None;
    }
    let (key, kend) = match parse_string_body(s, j + 1) {
        None => {
            return None;
        },
        Some(p) => p,
    };
    let k = skip_blank(s, kend);
    if k >= n {
        return None;
    }
    if s.get_char(k) != ':' {
        return None;
    }
    match parse_value_at(s, k + 1) {
        None => None,
        Some((v, e)) => Some(((key, v), e)),
    }
}

/// The members of an object, after the opening brace.
fn parse_obj_body(s: &str, i: usize) -> (r: Option<(Vec<(String, Json)>, usize)>)
    requires
        i <= s@.len(),
    ensures
        match r {
            Some((members, e)) => spec_obj(s@, i as int) == Some(
                (json_members(members@), e as int),
            ) && i < e <= s@.len(),
            None => spec_obj(s@, i as int) is None,
        },
    decreases s@.len() - i, 5int,
{
    let n = s.unicode_len();
    let j = skip_blank(s, i);
    if j >= n {
        return None;
    }
    if s.get_char(j) == '}' {
        let members: Vec<(String, Json)> = Vec::new();
        proof {
            assert(json_members(members@) =~= Seq::<(Seq<char>, JVal)>::empty());
        }
        return Some((members, j + 1));
    }
    let mut members: Vec<(String, Json)> = Vec::new();
    let mut cur: usize;
    match parse_pair(s, i) {
        None => {
            return None;
        },
        Some((m, e)) => {
            proof {
                lemma_json_members_snoc(members@, m);
                assert(json_members(members@) =~= Seq::<(Seq<char>, JVal)>::empty());
            }
            members.push(m);
            cur = e;
        },
    }
    loop
        invariant
            i < cur <= n,
            n == s@.len(),
            ({
                let full = spec_obj(s@, i as int);
                match spec_obj_tail(s@, cur as int) {
                    Some((rest, close)) => full == Some((json_members(members@) + rest, close)),
                    None => full is None,
                }
            }),
        decreases n - cur,
    {
        let j2 = skip_blank(s, cur);
        if j2 >= n {
            return None;
        }
        let c2 = s.get_char(j2);
        if c2 == '}' {
            proof {
                assert(json_members(members@) + Seq::<(Seq<char>, JVal)>::empty() =~= json_members(
                    members@,
                ));
            }
            return Some((members, j2 + 1));
        }
        if c2 != ',' {
            return None;
        }
        match parse_pair(s, j2 + 1) {
            None => {
                return None;
            },
            Some((m, e)) => {
                proof {
                    lemma_json_members_snoc(members@, m);
                    if let Some((rest2, close2)) = spec_obj_tail(s@, e as int) {
                        assert((json_members(members@) + seq![(m.0@, json_view(m.1))]) + rest2
                            =~= json_members(members@) + (seq![(m.0@, json_view(m.1))] + rest2));
                    }
                }
                members.push(m);
                cur = e;
            },
        }
    }
}

/// Lookup among the members from index `i` on: the value under the first
/// matching key.
pub open spec fn spec_get_at(m: Seq<(Seq<char>, JVal)>, k: Seq<char>, i: int) -> Option<JVal>
    decreases m.len() - i,
{
    if i < 0 || i >= m.len() {
        None
    } else if m[i].0 == k {
        Some(m[i].1)
    } else {
        spec_get_at(m, k, i + 1)
    }
}

/// The value under the first member named `k`, if any.
pub open spec fn spec_get(m: Seq<(Seq<char>, JVal)>, k: Seq<char>) -> Option<JVal> {
    spec_get_at(m, k, 0)
}

/// The value under the first member named `key`, if any.
pub fn get_member<'a>(m: &'a Vec<(String, Json)>, key: &str) -> (r: Option<&'a Json>)
    ensures
        match r {
            Some(v) => spec_get(json_members(m@), key@) == Some(json_view(*v)),
            None => spec_get(json_members(m@), key@) is None,
        },
{
    proof {
        lemma_json_members(m@);
    }
    let n = m.len();
    let mut i: usize = 0;
    while i < n
        invariant
            0 <= i <= n,
            n == m@.len(),
            json_members(m@).len() == n,
            forall|q: int|
                0 <= q < n ==> json_members(m@)[q] == (m@[q].0@, json_view(m@[q].1)),
            spec_get_at(json_members(m@), key@, 0) == spec_get_at(json_members(m@), key@, i as int),
        decreases n - i,
    {
        let pair = &m[i];
        if crate::textutil::str_eq(pair.0.as_str(), key) {
            return Some(&pair.1);
        }
        i = i + 1;
    }
    None
}

/// Reads a whole document: one value with nothing but blanks around it.
pub fn parse_text(s: &str) -> (r: Option<Json>)
    ensures
        match r {
            Some(v) => spec_doc(s@) == Some(json_view(v)),
            None => spec_doc(s@) is None,
        },
{
    match parse_value_at(s, 0) {
        None => None,
        Some((v, e)) => {
            let j = skip_blank(s, e);
            if j == s.unicode_len() {
                Some(v)
            } else {
                None
            }
        },
    }
}

} // verus!
