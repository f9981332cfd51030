//! The digit normalizer: maps a string of ASCII and full-width digit glyphs
//! to the equivalent ASCII-digit string, and gives digit strings their
//! decimal value.

use vstd::prelude::*;
use vstd::string::StrSliceExecFns;

use crate::errors::ParseError;

verus! {

/// The ten ASCII digit characters.
pub open spec fn is_ascii_digit(c: char) -> bool {
    ||| c == '0'
    ||| c == '1'
    ||| c == '2'
    ||| c == '3'
    ||| c == '4'
    ||| c == '5'
    ||| c == '6'
    ||| c == '7'
    ||| c == '8'
    ||| c == '9'
}

/// The ten full-width digit glyphs, U+FF10 through U+FF19.
pub open spec fn is_fullwidth_digit(c: char) -> bool {
    ||| c == '\u{FF10}'
    ||| c == '\u{FF11}'
    ||| c == '\u{FF12}'
    ||| c == '\u{FF13}'
    ||| c == '\u{FF14}'
    ||| c == '\u{FF15}'
    ||| c == '\u{FF16}'
    ||| c == '\u{FF17}'
    ||| c == '\u{FF18}'
    ||| c == '\u{FF19}'
}

/// A digit in either of the two supported numeral systems.
pub open spec fn is_digit_char(c: char) -> bool {
    is_ascii_digit(c) || is_fullwidth_digit(c)
}

/// The ASCII equivalent of a full-width digit glyph; any other character is
/// left unchanged.
pub open spec fn normalize_digit_char(c: char) -> char {
    if c == '\u{FF10}' {
        '0'
    } else if c == '\u{FF11}' {
        '1'
    } else if c == '\u{FF12}' {
        '2'
    } else if c == '\u{FF13}' {
        '3'
    } else if c == '\u{FF14}' {
        '4'
    } else if c == '\u{FF15}' {
        '5'
    } else if c == '\u{FF16}' {
        '6'
    } else if c == '\u{FF17}' {
        '7'
    } else if c == '\u{FF18}' {
        '8'
    } else if c == '\u{FF19}' {
        '9'
    } else {
        c
    }
}

/// The numeric value of a digit character in either system; 0 for any other
/// character.
pub open spec fn digit_val(c: char) -> int {
    if c == '1' || c == '\u{FF11}' {
        1
    } else if c == '2' || c == '\u{FF12}' {
        2
    } else if c == '3' || c == '\u{FF13}' {
        3
    } else if c == '4' || c == '\u{FF14}' {
        4
    } else if c == '5' || c == '\u{FF15}' {
        5
    } else if c == '6' || c == '\u{FF16}' {
        6
    } else if c == '7' || c == '\u{FF17}' {
        7
    } else if c == '8' || c == '\u{FF18}' {
        8
    } else if c == '9' || c == '\u{FF19}' {
        9
    } else {
        0
    }
}

/// Every character of the string is a digit in one of the two systems.
pub open spec fn all_digits(s: Seq<char>) -> bool {
    forall|i: int| 0 <= i < s.len() ==> is_digit_char(#[trigger] s[i])
}

/// Is the character a digit in one of the two supported alphabets?
pub fn is_digit_char_exec(c: char) -> (r: bool)
    ensures
        r == is_digit_char(c),
{
    c == '0' || c == '1' || c == '2' || c == '3' || c == '4' || c == '5' || c == '6' || c == '7'
        || c == '8' || c == '9' || c == '\u{FF10}' || c == '\u{FF11}' || c == '\u{FF12}'
        || c == '\u{FF13}' || c == '\u{FF14}' || c == '\u{FF15}' || c == '\u{FF16}'
        || c == '\u{FF17}' || c == '\u{FF18}' || c == '\u{FF19}'
}

/// Every character of the string is an ASCII digit.
pub open spec fn all_ascii_digits(s: Seq<char>) -> bool {
    forall|i: int| 0 <= i < s.len() ==> is_ascii_digit(#[trigger] s[i])
}

/// The string with each character replaced by its ASCII digit equivalent.
pub open spec fn normalize_digits(s: Seq<char>) -> Seq<char> {
    Seq::new(s.len(), |i: int| normalize_digit_char(s[i]))
}

/// The decimal value of a digit string, in either numeral system.
pub open spec fn digits_value(s: Seq<char>) -> int
    decreases s.len(),
{
    if s.len() == 0 {
        0
    } else {
        digits_value(s.drop_last()) * 10 + digit_val(s.last())
    }
}

pub proof fn lemma_digits_value_nonneg(s: Seq<char>)
    ensures
        digits_value(s) >= 0,
    decreases s.len(),
{
    if s.len() > 0 {
        lemma_digits_value_nonneg(s.drop_last());
    }
}

/// A digit string's value is at least the value of any of its prefixes.
pub proof fn lemma_digits_value_prefix(s: Seq<char>, i: int)
    requires
        0 <= i <= s.len(),
    ensures
        digits_value(s.take(i)) <= digits_value(s),
    decreases s.len(),
{
    if i == s.len() {
        assert(s.take(i) =~= s);
    } else {
        assert(s.drop_last().take(i) =~= s.take(i));
        lemma_digits_value_prefix(s.drop_last(), i);
        lemma_digits_value_nonneg(s.drop_last());
    }
}

/// Law: normalizing keeps the decimal value of every digit string, since
/// each character keeps its numeric value.
pub proof fn lemma_normalize_preserves_value(s: Seq<char>)
    ensures
        digits_value(normalize_digits(s)) == digits_value(s),
    decreases s.len(),
{
    if s.len() == 0 {
        assert(normalize_digits(s) =~= Seq::<char>::empty());
    } else {
        assert(normalize_digits(s).drop_last() =~= normalize_digits(s.drop_last()));
        lemma_normalize_preserves_value(s.drop_last());
    }
}

/// Law: on a string of digits in either system, normalization yields a
/// same-length ASCII-digit string that keeps each position's digit and the
/// string's decimal value.
pub proof fn lemma_normalizer_on_digit_strings(s: Seq<char>)
    requires
        all_digits(s),
    ensures
        normalize_digits(s).len() == s.len(),
        all_ascii_digits(normalize_digits(s)),
        forall|i: int|
            0 <= i < s.len() ==> digit_val(#[trigger] normalize_digits(s)[i]) == digit_val(s[i]),
        digits_value(normalize_digits(s)) == digits_value(s),
{
    lemma_normalize_preserves_value(s);
    assert forall|i: int| 0 <= i < s.len() implies is_ascii_digit(normalize_digits(s)[i]) by {
        assert(is_digit_char(s[i]));
    }
}

/// Law: a string already made of ASCII digits is accepted by the normalizer
/// and normalizes to itself, so re-normalizing a normalized string changes
/// nothing.
pub proof fn lemma_normalize_ascii_identity(s: Seq<char>)
    requires
        all_ascii_digits(s),
    ensures
        all_digits(s),
        normalize_digits(s) == s,
{
    assert forall|i: int| 0 <= i < s.len() implies normalize_digits(s)[i] == s[i] by {
        assert(is_ascii_digit(s[i]));
    }
    assert(normalize_digits(s) =~= s);
}

/// Maps a string of digit characters (ASCII or full-width) to the
/// same-length ASCII-digit string; fails if any character is not a digit in
/// either system.
pub fn to_half_digits(fd: &str) -> (r: Option<String>)
    ensures
        r is Some <==> all_digits(fd@),
        r matches Some(s) ==> {
            &&& s@ == normalize_digits(fd@)
            &&& s@.len() == fd@.len()
            &&& all_ascii_digits(s@)
        },
{
    let len = fd.unicode_len();
    let mut out = String::new();
    let mut i: usize = 0;
    while i < len
        invariant
            i <= len,
            len == fd@.len(),
            forall|j: int| 0 <= j < i ==> is_digit_char(#[trigger] fd@[j]),
            out@.len() == i,
            forall|j: int| 0 <= j < i ==> out@[j] == normalize_digit_char(#[trigger] fd@[j]),
        decreases len - i,
    {
        let c = fd.get_char(i);
        let piece: &str = if c == '0' || c == '\u{FF10}' {
            "0"
        } else if c == '1' || c == '\u{FF11}' {
            "1"
        } else if c == '2' || c == '\u{FF12}' {
            "2"
        } else if c == '3' || c == '\u{FF13}' {
            "3"
        } else if c == '4' || c == '\u{FF14}' {
            "4"
        } else if c == '5' || c == '\u{FF15}' {
            "5"
        } else if c == '6' || c == '\u{FF16}' {
            "6"
        } else if c == '7' || c == '\u{FF17}' {
            "7"
        } else if c == '8' || c == '\u{FF18}' {
            "8"
        } else if c == '9' || c == '\u{FF19}' {
            "9"
        } else {
            proof {
                assert(!is_digit_char(fd@[i as int]));
            }
            return None;
        };
        proof {
            reveal_strlit("0");
            reveal_strlit("1");
            reveal_strlit("2");
            reveal_strlit("3");
            reveal_strlit("4");
            reveal_strlit("5");
            reveal_strlit("6");
            reveal_strlit("7");
            reveal_strlit("8");
            reveal_strlit("9");
            assert(piece@.len() == 1 && piece@[0] == normalize_digit_char(fd@[i as int]));
        }
        out.append(piece);
        i = i + 1;
    }
    proof {
        assert(out@ =~= normalize_digits(fd@));
        assert forall|j: int| 0 <= j < out@.len() implies is_ascii_digit(out@[j]) by {
            assert(is_digit_char(fd@[j]));
        }
    }
    Some(out)
}

/// Parses a non-empty ASCII-digit string as a decimal number of at most
/// `max`; an empty string or a value above `max` is an integer-conversion
/// failure.
pub(crate) fn parse_decimal(s: &str, max: u32) -> (r: Result<u32, ParseError>)
    requires
        all_ascii_digits(s@),
    ensures
        (s@.len() == 0 || digits_value(s@) > max) ==> r == Err::<u32, ParseError>(
            ParseError::IntegerConversion,
        ),
        (s@.len() > 0 && digits_value(s@) <= max) ==> (r matches Ok(v) && v as int == digits_value(
            s@,
        )),
{
    let len = s.unicode_len();
    if len == 0 {
        return Err(ParseError::IntegerConversion);
    }
    let mut acc: u32 = 0;
    let mut i: usize = 0;
    while i < len
        invariant
            all_ascii_digits(s@),
            len == s@.len(),
            i <= len,
            acc as int == digits_value(s@.take(i as int)),
            acc <= max,
        decreases len - i,
    {
        let c = s.get_char(i);
        let d: u32 = if c == '0' {
            0
        } else if c == '1' {
            1
        } else if c == '2' {
            2
        } else if c == '3' {
            3
        } else if c == '4' {
            4
        } else if c == '5' {
            5
        } else if c == '6' {
            6
        } else if c == '7' {
            7
        } else if c == '8' {
            8
        } else if c == '9' {
            9
        } else {
            proof {
                assert(is_ascii_digit(s@[i as int]));
            }
            assert(false);
            0
        };
        proof {
            assert(s@.take(i as int + 1).drop_last() =~= s@.take(i as int));
            assert(s@.take(i as int + 1).last() == s@[i as int]);
            assert(digit_val(s@[i as int]) == d as int);
        }
        let t: u64 = acc as u64 * 10 + d as u64;
        if t > max as u64 {
            proof {
                lemma_digits_value_prefix(s@, i as int + 1);
            }
            return Err(ParseError::IntegerConversion);
        }
        acc = t as u32;
        i = i + 1;
    }
    proof {
        assert(s@.take(len as int) =~= s@);
    }
    Ok(acc)
}

} // verus!
