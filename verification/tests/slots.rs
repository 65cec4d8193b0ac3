use ffe_watch::detect::{detect_slots_from_html, extract_slots, parse_first_ratio, read_int};

fn chars(s: &str) -> Vec<char> {
    s.chars().collect()
}

#[test]
fn simple_ratio() {
    assert_eq!(detect_slots_from_html("52 / 60"), Some(8));
    assert_eq!(detect_slots_from_html("Engagés : 52 / 60"), Some(8));
}

#[test]
fn zero_slots_is_some_zero_not_none() {
    assert_eq!(detect_slots_from_html("engagés 60 / 60"), Some(0));
}

#[test]
fn no_ratio_gives_none() {
    assert_eq!(detect_slots_from_html("rien à voir ici"), None);
    assert_eq!(detect_slots_from_html(""), None);
    assert_eq!(detect_slots_from_html("42 sans barre"), None);
}

#[test]
fn ratio_after_engag_stem_preferred() {
    // The early 5 / 3 is rejected (3 < 5); the ratio after "engagés" wins.
    assert_eq!(detect_slots_from_html("5 / 3 ... engagés 52 / 60"), Some(8));
    // An accepted ratio before the stem is ignored when one follows the stem.
    assert_eq!(detect_slots_from_html("1 / 9 engagements 52 / 60"), Some(8));
}

#[test]
fn rejected_ratio_skipped_scan_continues() {
    assert_eq!(detect_slots_from_html("5 / 3 puis 7/9"), Some(2));
}

#[test]
fn fallback_to_whole_text_when_no_ratio_after_stem() {
    // "engag" occurs, no ratio follows it: the whole text is scanned instead.
    assert_eq!(detect_slots_from_html("10 / 20 engagés"), Some(10));
}

#[test]
fn whitespace_around_slash() {
    assert_eq!(detect_slots_from_html("12  /\t15"), Some(3));
    assert_eq!(detect_slots_from_html("3/4"), Some(1));
}

#[test]
fn scan_resumes_inside_digit_runs() {
    // 12 is read, no slash follows the spaces, scanning resumes at 34.
    assert_eq!(detect_slots_from_html("12 34/56"), Some(22));
}

#[test]
fn oversized_number_aborts_scan() {
    assert_eq!(detect_slots_from_html("9999999999 / 3"), None);
    // The abort hits the scan after the stem; the whole-text scan still finds
    // the earlier ratio.
    assert_eq!(detect_slots_from_html("2 / 4 engag 9999999999 / 3"), Some(2));
}

#[test]
fn read_int_reads_digit_runs() {
    assert_eq!(read_int(&chars("123x"), 0), Some((123, 3)));
    assert_eq!(read_int(&chars("x123"), 0), Some((0, 0)));
    assert_eq!(read_int(&chars("42"), 0), Some((42, 2)));
    assert_eq!(read_int(&chars("2147483647"), 0), Some((2147483647, 10)));
    assert_eq!(read_int(&chars("2147483648"), 0), None);
}

#[test]
fn parse_first_ratio_from_positions() {
    let t = chars("5 / 3 puis 7/9");
    assert_eq!(parse_first_ratio(&t, 0), Some(2));
    // Starting past the rejected candidate finds the accepted one directly.
    assert_eq!(parse_first_ratio(&t, 6), Some(2));
    assert_eq!(parse_first_ratio(&chars("no digits"), 0), None);
}

#[test]
fn extract_slots_on_lowercase_text() {
    assert_eq!(extract_slots(&chars("engagés 52 / 60")), Some(8));
    assert_eq!(extract_slots(&chars("52 / 60")), Some(8));
}
