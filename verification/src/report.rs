//! Reading the render invocation values from their command-line spellings,
//! and the lines the program reports: what is about to be rendered, and
//! what was rendered. The printing itself happens outside the library.

use vstd::prelude::*;
use vstd::string::StrSliceExecFns;
use vstd::string::StringExecFns;
use crate::textutil::{
    parse_u32_spec, parse_u64_spec, parse_u32, parse_u64, trim_spec, trim, dec_spec, dec_str,
    fmt_time_spec, fmt_time, pad2_spec, pad2_str,
};

verus! {

/// First position at or after `i` holding `c`, else the length.
pub open spec fn find_from(s: Seq<char>, c: char, i: int) -> int
    decreases s.len() - i,
{
    if i < 0 || i >= s.len() {
        s.len() as int
    } else if s[i] == c {
        i
    } else {
        find_from(s, c, i + 1)
    }
}

fn find_char(s: &str, c: char, i: usize) -> (r: usize)
    requires
        i <= s@.len(),
    ensures
        r == find_from(s@, c, i as int),
        i <= r <= s@.len(),
{
    let n = s.unicode_len();
    let mut k = i;
    while k < n && s.get_char(k) != c
        invariant
            i <= k <= n,
            n == s@.len(),
            find_from(s@, c, i as int) == find_from(s@, c, k as int),
        decreases n - k,
    {
        k = k + 1;
    }
    k
}

/// What the resolution argument `width:height` means: the text before the
/// first colon and the text after it up to a second colon, each trimmed and
/// read as a decimal count.
pub open spec fn spec_parse_resolution(s: Seq<char>) -> Result<(u32, u32), Seq<char>> {
    let p1 = find_from(s, ':', 0);
    match parse_u32_spec(trim_spec(s.subrange(0, p1))) {
        Some(w) => if p1 >= s.len() {
            Err("Could not parse resolution height"@)
        } else {
            let p2 = find_from(s, ':', p1 + 1);
            match parse_u32_spec(trim_spec(s.subrange(p1 + 1, p2))) {
                Some(h) => Ok((w, h)),
                None => Err("Could not parse resolution height"@),
            }
        },
        None => Err("Could not parse resolution width"@),
    }
}

/// Reads a `width:height` resolution argument.
pub fn parse_resolution(res: &str) -> (r: Result<[u32; 2], String>)
    ensures
        ({
            let sr = spec_parse_resolution(res@);
            match r {
                Ok(a) => sr == Ok::<(u32, u32), Seq<char>>((a[0], a[1])),
                Err(e) => sr == Err::<(u32, u32), Seq<char>>(e@),
            }
        }),
{
    let n = res.unicode_len();
    let p1 = find_char(res, ':', 0);
    let wpiece = trim(res.substring_char(0, p1));
    let w = match parse_u32(wpiece) {
        Some(w) => w,
        None => {
            return Err(String::from_str("Could not parse resolution width"));
        },
    };
    if p1 >= n {
        return Err(String::from_str("Could not parse resolution height"));
    }
    let p2 = find_char(res, ':', p1 + 1);
    let hpiece = trim(res.substring_char(p1 + 1, p2));
    let h = match parse_u32(hpiece) {
        Some(h) => h,
        None => {
            return Err(String::from_str("Could not parse resolution height"));
        },
    };
    Ok([w, h])
}

/// What the time-limit argument means: up to three colon-separated decimal
/// counts, read as seconds, minutes and seconds, or hours, minutes and
/// seconds; a total beyond the greatest machine count is refused.
pub open spec fn spec_parse_time(s: Seq<char>) -> Result<u64, Seq<char>> {
    let p1 = find_from(s, ':', 0);
    match parse_u64_spec(trim_spec(s.subrange(0, p1))) {
        Some(first) => if p1 >= s.len() {
            Ok(first)
        } else {
            let p2 = find_from(s, ':', p1 + 1);
            match parse_u64_spec(trim_spec(s.subrange(p1 + 1, p2))) {
                Some(second) => if p2 >= s.len() {
                    if first * 60 + second > u64::MAX {
                        Err("Time limit out of range"@)
                    } else {
                        Ok((first * 60 + second) as u64)
                    }
                } else {
                    let p3 = find_from(s, ':', p2 + 1);
                    match parse_u64_spec(trim_spec(s.subrange(p2 + 1, p3))) {
                        Some(third) => if first * 3600 + second * 60 + third > u64::MAX {
                            Err("Time limit out of range"@)
                        } else {
                            Ok((first * 3600 + second * 60 + third) as u64)
                        },
                        None => Err("Could not parse time-limit"@),
                    }
                },
                None => Err("Could not parse time-limit"@),
            }
        },
        None => Err("Could not parse time-limit"@),
    }
}

/// Reads a time-limit argument `s`, `m:s` or `h:m:s`, as whole seconds.
pub fn parse_time(time: &str) -> (r: Result<u64, String>)
    ensures
        ({
            let sr = spec_parse_time(time@);
            match r {
                Ok(v) => sr == Ok::<u64, Seq<char>>(v),
                Err(e) => sr == Err::<u64, Seq<char>>(e@),
            }
        }),
{
    let n = time.unicode_len();
    let p1 = find_char(time, ':', 0);
    let first = match parse_u64(trim(time.substring_char(0, p1))) {
        Some(v) => v,
        None => {
            return Err(String::from_str("Could not parse time-limit"));
        },
    };
    if p1 >= n {
        return Ok(first);
    }
    let p2 = find_char(time, ':', p1 + 1);
    let second = match parse_u64(trim(time.substring_char(p1 + 1, p2))) {
        Some(v) => v,
        None => {
            return Err(String::from_str("Could not parse time-limit"));
        },
    };
    if p2 >= n {
        let total: u128 = (first as u128) * 60 + (second as u128);
        if total > 0xffff_ffff_ffff_ffff {
            return Err(String::from_str("Time limit out of range"));
        }
        return Ok(total as u64);
    }
    let p3 = find_char(time, ':', p2 + 1);
    let third = match parse_u64(trim(time.substring_char(p2 + 1, p3))) {
        Some(v) => v,
        None => {
            return Err(String::from_str("Could not parse time-limit"));
        },
    };
    let total: u128 = (first as u128) * 3600 + (second as u128) * 60 + (third as u128);
    if total > 0xffff_ffff_ffff_ffff {
        return Err(String::from_str("Time limit out of range"));
    }
    Ok(total as u64)
}

/// The spelling of a whole-second duration in the opening line: hours,
/// minutes and seconds as far as they are needed, with the plain seconds in
/// brackets once minutes appear.
pub open spec fn intro_time_spec(secs: int) -> Seq<char> {
    if secs >= 3600 {
        dec_spec(secs / 3600) + "h:"@ + dec_spec((secs % 3600) / 60) + "m:"@ + dec_spec(secs % 60)
            + "s ("@ + dec_spec(secs) + "s)"@
    } else if secs >= 60 {
        dec_spec(secs / 60) + "m:"@ + dec_spec(secs % 60) + "s ("@ + dec_spec(secs) + "s)"@
    } else {
        dec_spec(secs) + "s"@
    }
}

fn intro_time(secs: u64) -> (r: String)
    ensures
        r@ == intro_time_spec(secs as int),
{
    if secs >= 3600 {
        let mut s = dec_str(secs / 3600);
        s.append("h:");
        let m = dec_str((secs % 3600) / 60);
        s.append(m.as_str());
        s.append("m:");
        let sec = dec_str(secs % 60);
        s.append(sec.as_str());
        s.append("s (");
        let whole = dec_str(secs);
        s.append(whole.as_str());
        s.append("s)");
        s
    } else if secs >= 60 {
        let mut s = dec_str(secs / 60);
        s.append("m:");
        let sec = dec_str(secs % 60);
        s.append(sec.as_str());
        s.append("s (");
        let whole = dec_str(secs);
        s.append(whole.as_str());
        s.append("s)");
        s
    } else {
        let mut s = dec_str(secs);
        s.append("s");
        s
    }
}

/// The opening line of a render: resolution, mode, time bound if any, and
/// the sample cap (marked as the default when none was given).
pub open spec fn intro_spec(
    w: u32,
    h: u32,
    samples: u32,
    def_samples: bool,
    time: Option<u64>,
    progressive: bool,
) -> Seq<char> {
    let sam = if def_samples {
        dec_spec(samples as int) + " (default) samples"@
    } else {
        dec_spec(samples as int) + " samples"@
    };
    let head = "Rendering at "@ + dec_spec(w as int) + "x"@ + dec_spec(h as int);
    match time {
        Some(t) => if progressive {
            head + " progressively for "@ + intro_time_spec(t as int) + ", maximum "@ + sam
        } else {
            head + " for "@ + intro_time_spec(t as int) + ", maximum "@ + sam
        },
        None => if progressive {
            head + " progressively, maximum "@ + sam
        } else {
            head + ", maximum "@ + sam
        },
    }
}

/// Builds the opening line of a render.
pub fn intro_text(
    res: [u32; 2],
    samples: u32,
    def_samples: bool,
    time: Option<u64>,
    progressive: bool,
) -> (r: String)
    ensures
        r@ == intro_spec(res[0], res[1], samples, def_samples, time, progressive),
{
    let mut s = String::from_str("Rendering at ");
    let wtxt = dec_str(res[0] as u64);
    s.append(wtxt.as_str());
    s.append("x");
    let htxt = dec_str(res[1] as u64);
    s.append(htxt.as_str());
    match time {
        Some(t) => {
            if progressive {
                s.append(" progressively for ");
            } else {
                s.append(" for ");
            }
            let ttxt = intro_time(t);
            s.append(ttxt.as_str());
            s.append(", maximum ");
        },
        None => {
            if progressive {
                s.append(" progressively, maximum ");
            } else {
                s.append(", maximum ");
            }
        },
    }
    let stxt = dec_str(samples as u64);
    s.append(stxt.as_str());
    if def_samples {
        s.append(" (default) samples");
    } else {
        s.append(" samples");
    }
    s
}

/// The closing line of a render: resolution, sample count, wall-clock time
/// as `H:MM:SS`, and the seconds each sample took on average, to two
/// decimal places rounding toward zero (`inf` when no sample ran).
pub open spec fn finished_spec(w: u32, h: u32, samples: u32, total_ms: u64) -> Seq<char> {
    let avg = if samples == 0 {
        "inf"@
    } else {
        let cs = (total_ms as int / 10) / (samples as int);
        dec_spec(cs / 100) + "."@ + pad2_spec(cs % 100)
    };
    "Finished "@ + dec_spec(w as int) + "x"@ + dec_spec(h as int) + " render with "@ + dec_spec(
        samples as int,
    ) + " samples in "@ + fmt_time_spec(total_ms as int / 1000) + " ("@ + avg
        + "s/sample average)"@
}

/// Builds the closing line of a render.
pub fn finished_text(res: [u32; 2], samples: u32, total_ms: u64) -> (r: String)
    ensures
        r@ == finished_spec(res[0], res[1], samples, total_ms),
{
    let mut s = String::from_str("Finished ");
    let wtxt = dec_str(res[0] as u64);
    s.append(wtxt.as_str());
    s.append("x");
    let htxt = dec_str(res[1] as u64);
    s.append(htxt.as_str());
    s.append(" render with ");
    let stxt = dec_str(samples as u64);
    s.append(stxt.as_str());
    s.append(" samples in ");
    let ttxt = fmt_time(total_ms / 1000);
    s.append(ttxt.as_str());
    s.append(" (");
    if samples == 0 {
        s.append("inf");
    } else {
        let cs = (total_ms / 10) / (samples as u64);
        let whole = dec_str(cs / 100);
        s.append(whole.as_str());
        s.append(".");
        let frac = pad2_str(cs % 100);
        s.append(frac.as_str());
    }
    s.append("s/sample average)");
    s
}

} // verus!
