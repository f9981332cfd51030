//! The phase parser: splits a "current / maximum" phase cell on the
//! full-width solidus and resolves each side in one of the two numeral
//! systems. The numeral system is decided from the first part alone: if it
//! normalizes as a digit string the record runs in normal mode, otherwise
//! both parts are decoded as roman numerals and the record runs in
//! emergency mode.

use vstd::prelude::*;

use crate::digits::all_digits;
use crate::digits::digits_value;
use crate::digits::lemma_digits_value_nonneg;
use crate::digits::lemma_normalize_preserves_value;
use crate::digits::parse_decimal;
use crate::digits::to_half_digits;
use crate::errors::ParseError;
use crate::roman::lemma_roman_decode_range;
use crate::roman::parse_roman_numerals;
use crate::roman::roman_decode;
use crate::scan::find_sep;
use crate::scan::find_sep_in;
use crate::scan::lemma_find_sep;
use crate::scan::trim;
use crate::scan::trimmed;
use vstd::string::StrSliceExecFns;

verus! {

/// Which numeral system the phase cell was written in.
#[derive(Clone, Copy, Debug, PartialEq, Eq, Structural)]
pub enum PhaseMode {
    Normal,
    Emergency,
}

/// A current / maximum escalation level pair. The document is expected to
/// keep `current <= maximum`, but that is not enforced here: the data may
/// violate it and must not be coerced.
#[derive(Clone, Copy, Debug, PartialEq, Eq, Structural)]
pub struct Phase {
    pub current: u8,
    pub maximum: u8,
    pub mode: PhaseMode,
}

/// What parsing a phase cell returns: the cell is split on the first
/// full-width solidus (the maximum part ends at the next one, if any), both
/// parts are trimmed, and the first part picks the numeral system for the
/// whole cell.
pub open spec fn spec_parse_phase(s: Seq<char>) -> Result<Phase, ParseError> {
    let i = find_sep(s);
    if i < 0 {
        Result::Err(ParseError::PhaseFormat)
    } else {
        let rest = s.skip(i + 1);
        let j = find_sep(rest);
        let c_part = trim(s.take(i));
        let m_part = trim(
            if j < 0 {
                rest
            } else {
                rest.take(j)
            },
        );
        if all_digits(c_part) {
            if !all_digits(m_part) {
                Result::Err(ParseError::NumeralFormat)
            } else if c_part.len() == 0 || digits_value(c_part) > 255 {
                Result::Err(ParseError::IntegerConversion)
            } else if m_part.len() == 0 || digits_value(m_part) > 255 {
                Result::Err(ParseError::IntegerConversion)
            } else {
                Result::Ok(
                    Phase {
                        current: digits_value(c_part) as u8,
                        maximum: digits_value(m_part) as u8,
                        mode: PhaseMode::Normal,
                    },
                )
            }
        } else {
            match roman_decode(c_part, 0) {
                Result::Err(e) => Result::Err(e),
                Result::Ok(cv) => match roman_decode(m_part, 0) {
                    Result::Err(e) => Result::Err(e),
                    Result::Ok(mv) => Result::Ok(
                        Phase { current: cv as u8, maximum: mv as u8, mode: PhaseMode::Emergency },
                    ),
                },
            }
        }
    }
}

/// Parses one phase cell into a current / maximum pair and its numeral mode.
pub fn parse_phase(s: &str) -> (r: Result<Phase, ParseError>)
    ensures
        r == spec_parse_phase(s@),
{
    let sep = match find_sep_in(s) {
        Some(i) => i,
        None => {
            return Err(ParseError::PhaseFormat);
        },
    };
    proof {
        lemma_find_sep(s@);
    }
    let len = s.unicode_len();
    let c_raw = s.substring_char(0, sep);
    let rest = s.substring_char(sep + 1, len);
    proof {
        assert(c_raw@ =~= s@.take(sep as int));
        assert(rest@ =~= s@.skip(sep as int + 1));
    }
    let rest_len = rest.unicode_len();
    let m_end = match find_sep_in(rest) {
        Some(j) => j,
        None => rest_len,
    };
    proof {
        if find_sep(rest@) >= 0 {
            lemma_find_sep(rest@);
        }
    }
    let m_raw = rest.substring_char(0, m_end);
    proof {
        if find_sep(rest@) < 0 {
            assert(m_raw@ =~= rest@);
        } else {
            assert(m_raw@ =~= rest@.take(m_end as int));
        }
    }
    let c_trim = trimmed(c_raw);
    let m_trim = trimmed(m_raw);
    match to_half_digits(c_trim) {
        Some(c_norm) => {
            match to_half_digits(m_trim) {
                None => Err(ParseError::NumeralFormat),
                Some(m_norm) => {
                    proof {
                        lemma_normalize_preserves_value(c_trim@);
                        lemma_normalize_preserves_value(m_trim@);
                        lemma_digits_value_nonneg(c_trim@);
                        lemma_digits_value_nonneg(m_trim@);
                    }
                    let cur = match parse_decimal(c_norm.as_str(), 255) {
                        Ok(v) => v,
                        Err(e) => {
                            return Err(e);
                        },
                    };
                    let max_v = match parse_decimal(m_norm.as_str(), 255) {
                        Ok(v) => v,
                        Err(e) => {
                            return Err(e);
                        },
                    };
                    Ok(Phase { current: cur as u8, maximum: max_v as u8, mode: PhaseMode::Normal })
                },
            }
        },
        None => {
            proof {
                lemma_roman_decode_range(c_trim@, 0);
            }
            let cur = match parse_roman_numerals(c_trim) {
                Ok(v) => v,
                Err(e) => {
                    return Err(e);
                },
            };
            proof {
                lemma_roman_decode_range(m_trim@, 0);
            }
            let max_v = match parse_roman_numerals(m_trim) {
                Ok(v) => v,
                Err(e) => {
                    return Err(e);
                },
            };
            Ok(Phase { current: cur, maximum: max_v, mode: PhaseMode::Emergency })
        },
    }
}

} // verus!
