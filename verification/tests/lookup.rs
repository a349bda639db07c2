use uniname::unicode::lookup_by_name;
use uniname::unicode::CodePoint;

#[test]
fn empty_query_gives_empty_results() {
    let mut data: Vec<CodePoint> = Vec::new();
    lookup_by_name("", &mut data);
    assert!(data.is_empty());
}

#[test]
fn one_char_query_gives_empty_results() {
    let mut data: Vec<CodePoint> = Vec::new();
    lookup_by_name("A", &mut data);
    assert!(data.is_empty());
}

#[test]
fn two_char_query_gives_empty_results() {
    let mut data: Vec<CodePoint> = Vec::new();
    lookup_by_name("ZZ", &mut data);
    assert!(data.is_empty());
}

#[test]
fn three_char_query_reaches_the_scan() {
    let mut data: Vec<CodePoint> = Vec::new();
    lookup_by_name("YEN", &mut data);
    assert!(data.iter().any(|cp| cp.0 == '\u{00A5}' && cp.1 == "YEN SIGN"));
}

#[test]
fn latin_small_letter_a_is_found() {
    let mut data: Vec<CodePoint> = Vec::new();
    lookup_by_name("LATIN SMALL LETTER A", &mut data);
    assert!(data.iter().any(|cp| cp.0 == 'a' && cp.1 == "LATIN SMALL LETTER A"));
    for cp in &data {
        assert!(cp.1.contains("LATIN SMALL LETTER A"));
    }
}

#[test]
fn lookup_is_case_insensitive() {
    let mut upper: Vec<CodePoint> = Vec::new();
    let mut lower: Vec<CodePoint> = Vec::new();
    lookup_by_name("YEN SIGN", &mut upper);
    lookup_by_name("yen sign", &mut lower);
    assert!(!upper.is_empty());
    assert_eq!(upper.len(), lower.len());
    for (a, b) in upper.iter().zip(lower.iter()) {
        assert_eq!(a.0, b.0);
        assert_eq!(a.1, b.1);
    }
}

#[test]
fn lookup_is_deterministic() {
    let mut first: Vec<CodePoint> = Vec::new();
    let mut second: Vec<CodePoint> = Vec::new();
    lookup_by_name("SNOWMAN", &mut first);
    lookup_by_name("SNOWMAN", &mut second);
    assert!(!first.is_empty());
    assert_eq!(first.len(), second.len());
    for (a, b) in first.iter().zip(second.iter()) {
        assert_eq!(a.0, b.0);
        assert_eq!(a.1, b.1);
    }
}

#[test]
fn results_are_in_ascending_code_point_order() {
    let mut data: Vec<CodePoint> = Vec::new();
    lookup_by_name("BLACK STAR", &mut data);
    assert!(!data.is_empty());
    for pair in data.windows(2) {
        assert!((pair[0].0 as u32) < (pair[1].0 as u32));
    }
}

#[test]
fn lowercase_query_is_uppercased_before_matching() {
    let mut data: Vec<CodePoint> = Vec::new();
    lookup_by_name("snowman", &mut data);
    assert!(data.iter().any(|cp| cp.0 == '\u{2603}' && cp.1 == "SNOWMAN"));
}
