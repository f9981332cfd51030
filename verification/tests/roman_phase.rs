use bed_report::errors::ParseError;
use bed_report::parse_phase;
use bed_report::parse_roman_numerals;
use bed_report::phase::PhaseMode;

#[test]
fn test_roman_ascii_values() {
    assert_eq!(parse_roman_numerals("I"), Ok(1));
    assert_eq!(parse_roman_numerals("IV"), Ok(4));
    assert_eq!(parse_roman_numerals("V"), Ok(5));
    assert_eq!(parse_roman_numerals("IX"), Ok(9));
}

#[test]
fn test_roman_single_glyph_values() {
    // U+2160 through U+2168: the single-glyph forms of one through nine.
    assert_eq!(parse_roman_numerals("Ⅰ"), Ok(1));
    assert_eq!(parse_roman_numerals("Ⅱ"), Ok(2));
    assert_eq!(parse_roman_numerals("Ⅲ"), Ok(3));
    assert_eq!(parse_roman_numerals("Ⅳ"), Ok(4));
    assert_eq!(parse_roman_numerals("Ⅴ"), Ok(5));
    assert_eq!(parse_roman_numerals("Ⅵ"), Ok(6));
    assert_eq!(parse_roman_numerals("Ⅶ"), Ok(7));
    assert_eq!(parse_roman_numerals("Ⅷ"), Ok(8));
    assert_eq!(parse_roman_numerals("Ⅸ"), Ok(9));
}

#[test]
fn test_roman_subtractive_pairs_with_glyphs() {
    // A one glyph followed by a five or ten glyph forms four or nine.
    assert_eq!(parse_roman_numerals("ⅠⅤ"), Ok(4));
    assert_eq!(parse_roman_numerals("ⅠⅩ"), Ok(9));
    assert_eq!(parse_roman_numerals("IⅤ"), Ok(4));
    assert_eq!(parse_roman_numerals("ⅠX"), Ok(9));
}

#[test]
fn test_roman_additive_accumulation() {
    // The decoder accepts non-canonical input by simple accumulation.
    assert_eq!(parse_roman_numerals("II"), Ok(2));
    assert_eq!(parse_roman_numerals("VI"), Ok(6));
    assert_eq!(parse_roman_numerals("VIV"), Ok(9));
    assert_eq!(parse_roman_numerals(""), Ok(0));
}

#[test]
fn test_roman_rejects_unknown_character() {
    assert_eq!(parse_roman_numerals("A"), Err(ParseError::RomanDecode('A')));
    assert_eq!(parse_roman_numerals("IZ"), Err(ParseError::RomanDecode('Z')));
    // A lone ten glyph is outside the supported range.
    assert_eq!(parse_roman_numerals("X"), Err(ParseError::RomanDecode('X')));
}

#[test]
fn test_phase_normal_mode() {
    let p = parse_phase("２／２").unwrap();
    assert_eq!(p.mode, PhaseMode::Normal);
    assert_eq!(p.current, 2);
    assert_eq!(p.maximum, 2);

    let p = parse_phase("1／3").unwrap();
    assert_eq!(p.mode, PhaseMode::Normal);
    assert_eq!(p.current, 1);
    assert_eq!(p.maximum, 3);
}

#[test]
fn test_phase_emergency_mode() {
    let p = parse_phase("Ⅰ／Ⅱ").unwrap();
    assert_eq!(p.mode, PhaseMode::Emergency);
    assert_eq!(p.current, 1);
    assert_eq!(p.maximum, 2);
}

#[test]
fn test_phase_trims_whitespace() {
    let p = parse_phase(" ２ ／ ３ ").unwrap();
    assert_eq!(p.mode, PhaseMode::Normal);
    assert_eq!(p.current, 2);
    assert_eq!(p.maximum, 3);
}

#[test]
fn test_phase_errors() {
    // No full-width solidus at all.
    assert_eq!(parse_phase("22"), Err(ParseError::PhaseFormat));
    // Digits on the left pick normal mode; a non-digit right side fails.
    assert_eq!(parse_phase("２／a"), Err(ParseError::NumeralFormat));
    // An empty current part normalizes (vacuously) and then fails conversion.
    assert_eq!(parse_phase("／２"), Err(ParseError::IntegerConversion));
    // A value beyond the eight-bit width.
    assert_eq!(parse_phase("２５６／１"), Err(ParseError::IntegerConversion));
    // Roman mode propagates the decoder's failure, naming the character.
    assert_eq!(parse_phase("Ⅰ／Z"), Err(ParseError::RomanDecode('Z')));
}
