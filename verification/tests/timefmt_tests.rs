use mblog::colors::Colors;
use mblog::timefmt::OutputTz;
use mblog::timefmt::TzError;
use mblog::timefmt::format_ts;
use mblog::timefmt::parse_output_tz;

fn parse(s: &str) -> Result<OutputTz, TzError> {
    parse_output_tz(&s.as_bytes().to_vec())
}

#[test]
fn parse_named_zones() {
    assert_eq!(parse("UTC"), Ok(OutputTz::Utc));
    assert_eq!(parse("utc"), Ok(OutputTz::Utc));
    assert_eq!(parse(" local "), Ok(OutputTz::Local));
    assert_eq!(parse("LOCAL"), Ok(OutputTz::Local));
}

#[test]
fn parse_fixed_offsets() {
    assert_eq!(parse("+09:00"), Ok(OutputTz::Fixed(9 * 3600)));
    assert_eq!(parse("-05:30"), Ok(OutputTz::Fixed(-(5 * 3600 + 30 * 60))));
    assert_eq!(parse("+00:00"), Ok(OutputTz::Fixed(0)));
    assert_eq!(parse("+23:59"), Ok(OutputTz::Fixed(23 * 3600 + 59 * 60)));
}

#[test]
fn parse_rejects_bad_offsets() {
    assert_eq!(parse("+24:00"), Err(TzError::InvalidOffset));
    assert_eq!(parse("-00:60"), Err(TzError::InvalidOffset));
    assert_eq!(parse("+ab:cd"), Err(TzError::Invalid));
    assert_eq!(parse("09:00"), Err(TzError::Invalid));
    assert_eq!(parse(""), Err(TzError::Invalid));
    assert_eq!(parse("sideways"), Err(TzError::Invalid));
}

#[test]
fn parse_iana_zone() {
    assert_eq!(parse("Asia/Dubai"), Ok(OutputTz::Iana));
    assert_eq!(parse("America/New_York"), Ok(OutputTz::Iana));
}

#[test]
fn format_utc_epoch() {
    let s = format_ts(0, &OutputTz::Utc).unwrap();
    assert_eq!(s, "1970-01-01T00:00:00+00:00");
    let s = format_ts(1000, &OutputTz::Utc).unwrap();
    assert_eq!(s, "1970-01-01T00:00:01+00:00");
}

#[test]
fn format_fixed_offset() {
    let s = format_ts(0, &OutputTz::Fixed(9 * 3600)).unwrap();
    assert_eq!(s, "1970-01-01T09:00:00+09:00");
    let s = format_ts(0, &OutputTz::Fixed(-5 * 3600)).unwrap();
    assert_eq!(s, "1969-12-31T19:00:00-05:00");
}

#[test]
fn format_local_exists() {
    assert!(format_ts(0, &OutputTz::Local).is_some());
}

#[test]
fn colors_wrap_and_pass_through() {
    let on = Colors::new(true);
    let off = Colors::new(false);
    assert_eq!(on.wrap("x", "36"), "\u{1b}[36mx\u{1b}[0m");
    assert_eq!(off.wrap("x", "36"), "x");
    assert_eq!(on.epoch("5"), "\u{1b}[36m5\u{1b}[0m");
    assert_eq!(on.range("10"), "\u{1b}[33m10\u{1b}[0m");
    assert_eq!(on.author("k"), "\u{1b}[35mk\u{1b}[0m");
    assert_eq!(on.slot("4"), "\u{1b}[34m4\u{1b}[0m");
    assert_eq!(on.time("t"), "\u{1b}[32mt\u{1b}[0m");
    assert_eq!(on.dim("d"), "\u{1b}[90md\u{1b}[0m");
    assert_eq!(off.dim("d"), "d");
}
