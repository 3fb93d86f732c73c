use pathtracer::report::{finished_text, intro_text, parse_resolution, parse_time};
use pathtracer::textutil::{fmt_time, parse_u32, parse_u64, str_eq, trim};

#[test]
fn time_formats_padded() {
    assert_eq!(fmt_time(0), "0:00:00");
    assert_eq!(fmt_time(59), "0:00:59");
    assert_eq!(fmt_time(3661), "1:01:01");
    assert_eq!(fmt_time(36_000 + 23 * 60 + 45), "10:23:45");
}

#[test]
fn resolution_reads_width_and_height() {
    assert_eq!(parse_resolution("1920:1080"), Ok([1920, 1080]));
    assert_eq!(parse_resolution(" 800 : 600 "), Ok([800, 600]));
    // Anything after a second colon is passed over, as a splitter would.
    assert_eq!(parse_resolution("4:3:junk"), Ok([4, 3]));
}

#[test]
fn resolution_names_the_failing_side() {
    assert_eq!(
        parse_resolution("abc:100").unwrap_err(),
        "Could not parse resolution width"
    );
    assert_eq!(
        parse_resolution("100").unwrap_err(),
        "Could not parse resolution height"
    );
    assert_eq!(
        parse_resolution("100:").unwrap_err(),
        "Could not parse resolution height"
    );
}

#[test]
fn time_limit_reads_three_spellings() {
    assert_eq!(parse_time("90"), Ok(90));
    assert_eq!(parse_time("1:30"), Ok(90));
    assert_eq!(parse_time("1:2:3"), Ok(3723));
    assert_eq!(parse_time(" 2 : 0 : 0 "), Ok(7200));
    assert_eq!(parse_time("x").unwrap_err(), "Could not parse time-limit");
    assert_eq!(parse_time("1:x").unwrap_err(), "Could not parse time-limit");
    assert_eq!(parse_time("1:2:x").unwrap_err(), "Could not parse time-limit");
}

#[test]
fn intro_line_spellings() {
    assert_eq!(
        intro_text([640, 480], 100, false, None, false),
        "Rendering at 640x480, maximum 100 samples"
    );
    assert_eq!(
        intro_text([640, 480], 100_000, true, None, true),
        "Rendering at 640x480 progressively, maximum 100000 (default) samples"
    );
    assert_eq!(
        intro_text([1, 2], 5, false, Some(45), false),
        "Rendering at 1x2 for 45s, maximum 5 samples"
    );
    assert_eq!(
        intro_text([1, 2], 5, false, Some(90), false),
        "Rendering at 1x2 for 1m:30s (90s), maximum 5 samples"
    );
    assert_eq!(
        intro_text([1, 2], 5, false, Some(3700), true),
        "Rendering at 1x2 progressively for 1h:1m:40s (3700s), maximum 5 samples"
    );
}

#[test]
fn finished_line_spelling() {
    assert_eq!(
        finished_text([2, 2], 4, 10_000),
        "Finished 2x2 render with 4 samples in 0:00:10 (2.50s/sample average)"
    );
    assert_eq!(
        finished_text([800, 600], 0, 500),
        "Finished 800x600 render with 0 samples in 0:00:00 (infs/sample average)"
    );
}

#[test]
fn decimal_parsers_match_the_standard_ones() {
    assert_eq!(parse_u32("42"), Some(42));
    assert_eq!(parse_u32("+42"), Some(42));
    assert_eq!(parse_u32("4294967295"), Some(u32::MAX));
    assert_eq!(parse_u32("4294967296"), None);
    assert_eq!(parse_u32(""), None);
    assert_eq!(parse_u32("-1"), None);
    assert_eq!(parse_u32("1 2"), None);
    assert_eq!(parse_u64("18446744073709551615"), Some(u64::MAX));
    assert_eq!(parse_u64("18446744073709551616"), None);
    // The same texts through the standard library, for comparison.
    assert_eq!("42".parse::<u32>().ok(), parse_u32("42"));
    assert_eq!("+42".parse::<u32>().ok(), parse_u32("+42"));
    assert_eq!("4294967296".parse::<u32>().ok(), parse_u32("4294967296"));
    assert_eq!("".parse::<u32>().ok(), parse_u32(""));
}

#[test]
fn text_helpers() {
    assert_eq!(trim("  a b\t\n"), "a b");
    assert_eq!(trim("   "), "");
    assert_eq!(trim(""), "");
    assert!(str_eq("abc", "abc"));
    assert!(!str_eq("abc", "abd"));
    assert!(!str_eq("abc", "ab"));
}
