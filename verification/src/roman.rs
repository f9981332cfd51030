//! The roman-numeral decoder: a deliberately narrow decoder for phase
//! levels, correct for the value range one through nine, including the
//! subtractive pairs and the dedicated single-glyph code points.

use vstd::prelude::*;
use vstd::string::StrSliceExecFns;

use crate::errors::ParseError;

verus! {

/// ASCII `I` or the single-glyph roman numeral one, U+2160.
pub open spec fn is_roman_one(c: char) -> bool {
    c == 'I' || c == '\u{2160}'
}

/// ASCII `V` or the single-glyph roman numeral five, U+2164.
pub open spec fn is_roman_five(c: char) -> bool {
    c == 'V' || c == '\u{2164}'
}

/// ASCII `X` or the single-glyph roman numeral ten, U+2169.
pub open spec fn is_roman_ten(c: char) -> bool {
    c == 'X' || c == '\u{2169}'
}

/// One of the single-glyph code points for the values two through nine,
/// U+2161 through U+2168.
pub open spec fn is_roman_block(c: char) -> bool {
    ||| c == '\u{2161}'
    ||| c == '\u{2162}'
    ||| c == '\u{2163}'
    ||| c == '\u{2164}'
    ||| c == '\u{2165}'
    ||| c == '\u{2166}'
    ||| c == '\u{2167}'
    ||| c == '\u{2168}'
}

/// The value of a single-glyph code point for two through nine; 0 for any
/// other character.
pub open spec fn roman_block_val(c: char) -> int {
    if c == '\u{2161}' {
        2
    } else if c == '\u{2162}' {
        3
    } else if c == '\u{2163}' {
        4
    } else if c == '\u{2164}' {
        5
    } else if c == '\u{2165}' {
        6
    } else if c == '\u{2166}' {
        7
    } else if c == '\u{2167}' {
        8
    } else if c == '\u{2168}' {
        9
    } else {
        0
    }
}

/// Left-to-right decoding with an accumulator: a one glyph peeks at the next
/// character for a subtractive pair (four or nine), a five glyph adds five,
/// a single-glyph code point for two through nine adds its value, and any
/// other character fails naming that character. A running total that leaves
/// the eight-bit range is an integer-conversion failure.
pub open spec fn roman_decode(s: Seq<char>, acc: int) -> Result<int, ParseError>
    decreases s.len(),
{
    if s.len() == 0 {
        Result::Ok(acc)
    } else {
        let c = s[0];
        if is_roman_one(c) {
            if s.len() >= 2 && is_roman_five(s[1]) {
                if acc + 4 > 255 {
                    Result::Err(ParseError::IntegerConversion)
                } else {
                    roman_decode(s.skip(2), acc + 4)
                }
            } else if s.len() >= 2 && is_roman_ten(s[1]) {
                if acc + 9 > 255 {
                    Result::Err(ParseError::IntegerConversion)
                } else {
                    roman_decode(s.skip(2), acc + 9)
                }
            } else {
                if acc + 1 > 255 {
                    Result::Err(ParseError::IntegerConversion)
                } else {
                    roman_decode(s.skip(1), acc + 1)
                }
            }
        } else if c == 'V' {
            if acc + 5 > 255 {
                Result::Err(ParseError::IntegerConversion)
            } else {
                roman_decode(s.skip(1), acc + 5)
            }
        } else if is_roman_block(c) {
            if acc + roman_block_val(c) > 255 {
                Result::Err(ParseError::IntegerConversion)
            } else {
                roman_decode(s.skip(1), acc + roman_block_val(c))
            }
        } else {
            Result::Err(ParseError::RomanDecode(c))
        }
    }
}

/// A successful decode starting from an accumulator within the eight-bit
/// range stays within that range.
pub proof fn lemma_roman_decode_range(s: Seq<char>, acc: int)
    requires
        0 <= acc <= 255,
    ensures
        roman_decode(s, acc) matches Ok(v) ==> 0 <= v <= 255,
    decreases s.len(),
{
    if s.len() > 0 {
        let c = s[0];
        if is_roman_one(c) {
            if s.len() >= 2 && is_roman_five(s[1]) {
                if acc + 4 <= 255 {
                    lemma_roman_decode_range(s.skip(2), acc + 4);
                }
            } else if s.len() >= 2 && is_roman_ten(s[1]) {
                if acc + 9 <= 255 {
                    lemma_roman_decode_range(s.skip(2), acc + 9);
                }
            } else {
                if acc + 1 <= 255 {
                    lemma_roman_decode_range(s.skip(1), acc + 1);
                }
            }
        } else if c == 'V' {
            if acc + 5 <= 255 {
                lemma_roman_decode_range(s.skip(1), acc + 5);
            }
        } else if is_roman_block(c) {
            if acc + roman_block_val(c) <= 255 {
                lemma_roman_decode_range(s.skip(1), acc + roman_block_val(c));
            }
        }
    }
}

/// Decodes a roman-numeral string by simple left-to-right accumulation, with
/// no validation of canonical form. An unrecognized character fails naming
/// that character.
pub fn parse_roman_numerals(s: &str) -> (r: Result<u8, ParseError>)
    ensures
        roman_decode(s@, 0) matches Ok(v) ==> (r matches Ok(n) && n as int == v),
        roman_decode(s@, 0) matches Err(e) ==> r == Err::<u8, ParseError>(e),
{
    let len = s.unicode_len();
    let mut i: usize = 0;
    let mut acc: u32 = 0;
    proof {
        assert(s@.skip(0) =~= s@);
    }
    while i < len
        invariant
            i <= len,
            len == s@.len(),
            acc <= 255,
            roman_decode(s@, 0) == roman_decode(s@.skip(i as int), acc as int),
        decreases len - i,
    {
        let c = s.get_char(i);
        proof {
            assert(s@.skip(i as int)[0] == s@[i as int]);
        }
        let (k, step): (u32, usize) = if c == 'I' || c == '\u{2160}' {
            if i + 1 < len {
                let c2 = s.get_char(i + 1);
                proof {
                    assert(s@.skip(i as int)[1] == s@[i as int + 1]);
                }
                if c2 == 'V' || c2 == '\u{2164}' {
                    (4, 2)
                } else if c2 == 'X' || c2 == '\u{2169}' {
                    (9, 2)
                } else {
                    (1, 1)
                }
            } else {
                (1, 1)
            }
        } else if c == 'V' {
            (5, 1)
        } else if c == '\u{2161}' {
            (2, 1)
        } else if c == '\u{2162}' {
            (3, 1)
        } else if c == '\u{2163}' {
            (4, 1)
        } else if c == '\u{2164}' {
            (5, 1)
        } else if c == '\u{2165}' {
            (6, 1)
        } else if c == '\u{2166}' {
            (7, 1)
        } else if c == '\u{2167}' {
            (8, 1)
        } else if c == '\u{2168}' {
            (9, 1)
        } else {
            return Err(ParseError::RomanDecode(c));
        };
        proof {
            assert(s@.skip(i as int).skip(step as int) =~= s@.skip(i as int + step as int));
            assert(roman_block_val(s@[i as int]) == k as int || is_roman_one(s@[i as int])
                || s@[i as int] == 'V');
        }
        let a2 = acc + k;
        if a2 > 255 {
            return Err(ParseError::IntegerConversion);
        }
        acc = a2;
        i = i + step;
    }
    proof {
        assert(s@.skip(len as int) =~= Seq::<char>::empty());
    }
    Ok(acc as u8)
}

} // verus!
