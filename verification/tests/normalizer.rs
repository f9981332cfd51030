use bed_report::to_half_digits;

#[test]
fn test_to_half_digits() {
    assert_eq!(to_half_digits("０"), Some("0".to_string()));
    assert_eq!(to_half_digits("９"), Some("9".to_string()));
    assert_eq!(to_half_digits("0"), Some("0".to_string()));
    assert_eq!(to_half_digits("9"), Some("9".to_string()));
    assert_eq!(to_half_digits("１１"), Some("11".to_string()));
    assert_eq!(to_half_digits("1１1１1"), Some("11111".to_string()));
}

#[test]
fn test_to_half_digits_all_glyphs() {
    assert_eq!(
        to_half_digits("０１２３４５６７８９"),
        Some("0123456789".to_string())
    );
    assert_eq!(to_half_digits("0123456789"), Some("0123456789".to_string()));
}

#[test]
fn test_to_half_digits_rejects_non_digits() {
    assert_eq!(to_half_digits(" 1"), None);
    assert_eq!(to_half_digits("1 "), None);
    assert_eq!(to_half_digits("1 1"), None);
    assert_eq!(to_half_digits("a"), None);
    assert_eq!(to_half_digits("１a"), None);
    assert_eq!(to_half_digits("一"), None);
    assert_eq!(to_half_digits("-1"), None);
}

#[test]
fn test_to_half_digits_empty() {
    assert_eq!(to_half_digits(""), Some("".to_string()));
}

#[test]
fn test_to_half_digits_idempotent() {
    let once = to_half_digits("1１1１1").unwrap();
    let twice = to_half_digits(&once).unwrap();
    assert_eq!(once, twice);
    assert_eq!(to_half_digits("11111"), Some("11111".to_string()));
}
