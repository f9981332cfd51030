use vstd::prelude::*;

verus! {

/// A failure while interpreting a numeral string or a phase cell.
#[derive(Clone, Copy, Debug, PartialEq, Eq)]
pub enum ParseError {
    /// A string expected to consist of digits (ASCII or full-width) holds
    /// some other character.
    NumeralFormat,
    /// An unrecognized character was met while decoding a roman-numeral
    /// phase value; the character is named.
    RomanDecode(char),
    /// A digit string is empty, or its value does not fit the target
    /// integer width.
    IntegerConversion,
    /// A phase cell does not split into a current part and a maximum part.
    PhaseFormat,
}

/// A failure while extracting a record from the grid, carrying the
/// zero-based row and column of the offending cell.
#[derive(Clone, Copy, Debug, PartialEq, Eq)]
pub enum ExtractError {
    /// The cell lies outside the populated range of the grid.
    CellMissing { row: u32, col: u32 },
    /// The cell holds a value of an unexpected type.
    CellType { row: u32, col: u32 },
    /// The cell holds text that lacks the expected shape.
    CellFormat { row: u32, col: u32 },
    /// The cell's text failed numeral or phase parsing.
    CellParse { row: u32, col: u32, cause: ParseError },
}

} // verus!
