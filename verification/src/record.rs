//! The record extractor: reads one validated record per row from a fixed
//! row range and fixed column offsets of a grid of loosely-typed cell
//! values. A failure names the offending cell by row and column, and any
//! cell-level failure is fatal to the whole pass.

use vstd::prelude::*;

use crate::errors::ExtractError;
use crate::phase::parse_phase;
use crate::phase::spec_parse_phase;
use crate::phase::Phase;
use crate::scan::find_space;
use crate::scan::find_space_in;
use crate::scan::lemma_find_space;
use crate::scan::trim;
use crate::scan::trimmed;
use vstd::string::StrSliceExecFns;
use vstd::string::StringExecFns;

verus! {

/// One cell of the grid, as handed over by the spreadsheet reader: in-range
/// but valueless, text, an integer, a floating-point number, a boolean, or
/// an error value.
#[derive(Debug, Clone)]
pub enum Cell {
    /// An in-range cell with no value.
    Empty,
    /// A text cell.
    Text(String),
    /// An integer-typed cell.
    Int(i64),
    /// A floating-point cell, carried as its value truncated toward zero
    /// (and clamped to the unsigned 32-bit range) at the grid's edge, since
    /// the verified layer holds no floating-point values.
    Float { truncated: u32 },
    /// A boolean cell.
    Bool(bool),
    /// An error-valued cell, or any value kind outside this taxonomy.
    ErrorValue,
}

/// A two-dimensional grid of cells with zero-based row and column indices.
#[derive(Debug, Clone)]
pub struct Grid {
    pub cells: Vec<Vec<Cell>>,
}

impl View for Grid {
    type V = Seq<Seq<Cell>>;

    open spec fn view(&self) -> Seq<Seq<Cell>> {
        Seq::new(self.cells@.len(), |i: int| self.cells@[i]@)
    }
}

/// The cell at a position, or nothing if the position lies outside the
/// populated range.
pub open spec fn cell_at(g: Seq<Seq<Cell>>, row: u32, col: u32) -> Option<Cell> {
    if row < g.len() && col < g[row as int].len() {
        Option::Some(g[row as int][col as int])
    } else {
        Option::None
    }
}

impl Grid {
    /// Looks a cell up by row and column.
    pub fn cell(&self, row: u32, col: u32) -> (r: Option<&Cell>)
        ensures
            match r {
                Option::Some(c) => cell_at(self@, row, col) == Option::Some(*c),
                Option::None => cell_at(self@, row, col) is None,
            },
    {
        let ri = row as usize;
        if ri < self.cells.len() {
            let row_cells = &self.cells[ri];
            let ci = col as usize;
            if ci < row_cells.len() {
                Some(&row_cells[ci])
            } else {
                None
            }
        } else {
            None
        }
    }
}

/// The fixed placement of the report's fields in the grid: the closed row
/// range holding one prefecture per row, and the column of each field.
#[derive(Clone, Copy, Debug, PartialEq, Eq, Structural)]
pub struct Layout {
    pub start_row: u32,
    pub end_row: u32,
    pub prefecture_col: u32,
    pub phase_col: u32,
    pub inpatient_total_col: u32,
    pub inpatient_dedicated_col: u32,
    pub inpatient_extra_col: u32,
    pub available_or_assigned_col: u32,
    pub guaranteed_col: u32,
    pub extra_guaranteed_col: u32,
}

/// The layout of the source document: the 9th through 55th rows, prefecture
/// in the first column, phase in the sixth, and the six counters around
/// them.
pub open spec fn standard_layout() -> Layout {
    Layout {
        start_row: 8,
        end_row: 54,
        prefecture_col: 0,
        phase_col: 5,
        inpatient_total_col: 2,
        inpatient_dedicated_col: 3,
        inpatient_extra_col: 4,
        available_or_assigned_col: 6,
        guaranteed_col: 7,
        extra_guaranteed_col: 8,
    }
}

impl Layout {
    /// A usable layout: a non-empty row range whose end leaves room for the
    /// loop counter.
    pub open spec fn wf(self) -> bool {
        self.start_row <= self.end_row < u32::MAX
    }

    /// The layout of the source document.
    pub fn standard() -> (l: Layout)
        ensures
            l == standard_layout(),
            l.wf(),
    {
        Layout {
            start_row: 8,
            end_row: 54,
            prefecture_col: 0,
            phase_col: 5,
            inpatient_total_col: 2,
            inpatient_dedicated_col: 3,
            inpatient_extra_col: 4,
            available_or_assigned_col: 6,
            guaranteed_col: 7,
            extra_guaranteed_col: 8,
        }
    }
}

/// A prefecture's identity: its two-character, possibly zero-padded code
/// and its display name.
#[derive(Debug, Clone)]
pub struct Prefecture {
    pub code: String,
    pub name: String,
}

/// The mathematical value of a prefecture's identity.
pub struct PrefectureView {
    pub code: Seq<char>,
    pub name: Seq<char>,
}

impl View for Prefecture {
    type V = PrefectureView;

    open spec fn view(&self) -> PrefectureView {
        PrefectureView { code: self.code@, name: self.name@ }
    }
}

/// The three inpatient counters of one row.
#[derive(Clone, Copy, Debug, PartialEq, Eq, Structural)]
pub struct PatientCount {
    pub total: u32,
    pub dedicated: u32,
    pub extra: u32,
}

/// The three dedicated-bed counters of one row.
#[derive(Clone, Copy, Debug, PartialEq, Eq, Structural)]
pub struct ResourceCount {
    pub available_or_assigned: u32,
    pub guaranteed: u32,
    pub extra_guaranteed: u32,
}

/// One validated row of the report.
#[derive(Debug, Clone)]
pub struct Record {
    pub prefecture: Prefecture,
    pub phase: Phase,
    pub inpatient_count: PatientCount,
    pub dedicated_bed_count: ResourceCount,
}

/// The mathematical value of one record.
pub struct RecordView {
    pub prefecture: PrefectureView,
    pub phase: Phase,
    pub inpatient_count: PatientCount,
    pub dedicated_bed_count: ResourceCount,
}

impl View for Record {
    type V = RecordView;

    open spec fn view(&self) -> RecordView {
        RecordView {
            prefecture: self.prefecture@,
            phase: self.phase,
            inpatient_count: self.inpatient_count,
            dedicated_bed_count: self.dedicated_bed_count,
        }
    }
}

/// What reading a numeric cell returns: an integer cell must fit the
/// unsigned 32-bit width, a floating-point cell was truncated at the grid's
/// edge, and any other value kind is a type failure.
pub open spec fn spec_get_number(g: Seq<Seq<Cell>>, row: u32, col: u32) -> Result<
    u32,
    ExtractError,
> {
    match cell_at(g, row, col) {
        Option::None => Result::Err(ExtractError::CellMissing { row, col }),
        Option::Some(c) => match c {
            Cell::Int(i) => if 0 <= i as int <= u32::MAX as int {
                Result::Ok(i as u32)
            } else {
                Result::Err(
                    ExtractError::CellParse {
                        row,
                        col,
                        cause: crate::errors::ParseError::IntegerConversion,
                    },
                )
            },
            Cell::Float { truncated } => Result::Ok(truncated),
            _ => Result::Err(ExtractError::CellType { row, col }),
        },
    }
}

/// Reads one numeric cell as an unsigned integer.
pub fn get_number(g: &Grid, row: u32, col: u32) -> (r: Result<u32, ExtractError>)
    ensures
        r == spec_get_number(g@, row, col),
{
    match g.cell(row, col) {
        None => Err(ExtractError::CellMissing { row, col }),
        Some(c) => match c {
            Cell::Int(i) => {
                if *i >= 0 && *i <= u32::MAX as i64 {
                    Ok(*i as u32)
                } else {
                    Err(
                        ExtractError::CellParse {
                            row,
                            col,
                            cause: crate::errors::ParseError::IntegerConversion,
                        },
                    )
                }
            },
            Cell::Float { truncated } => Ok(*truncated),
            _ => Err(ExtractError::CellType { row, col }),
        },
    }
}

/// What reading a prefecture cell returns: a text cell split at its first
/// whitespace character, both parts trimmed.
pub open spec fn spec_read_prefecture(g: Seq<Seq<Cell>>, row: u32, col: u32) -> Result<
    PrefectureView,
    ExtractError,
> {
    match cell_at(g, row, col) {
        Option::None => Result::Err(ExtractError::CellMissing { row, col }),
        Option::Some(c) => match c {
            Cell::Text(s) => {
                let t = s@;
                let i = find_space(t);
                if i < 0 {
                    Result::Err(ExtractError::CellFormat { row, col })
                } else {
                    Result::Ok(
                        PrefectureView { code: trim(t.take(i)), name: trim(t.skip(i + 1)) },
                    )
                }
            },
            _ => Result::Err(ExtractError::CellType { row, col }),
        },
    }
}

/// Reads the prefecture cell of one row.
pub fn read_prefecture(g: &Grid, row: u32, col: u32) -> (r: Result<Prefecture, ExtractError>)
    ensures
        r matches Ok(p) ==> spec_read_prefecture(g@, row, col) == Ok::<
            PrefectureView,
            ExtractError,
        >(p@),
        r matches Err(e) ==> spec_read_prefecture(g@, row, col) == Err::<
            PrefectureView,
            ExtractError,
        >(e),
{
    let c = match g.cell(row, col) {
        Some(c) => c,
        None => {
            return Err(ExtractError::CellMissing { row, col });
        },
    };
    let s: &String = match c {
        Cell::Text(s) => s,
        _ => {
            return Err(ExtractError::CellType { row, col });
        },
    };
    let st = s.as_str();
    let i = match find_space_in(st) {
        Some(i) => i,
        None => {
            return Err(ExtractError::CellFormat { row, col });
        },
    };
    proof {
        lemma_find_space(st@);
    }
    let len = st.unicode_len();
    let code_raw = st.substring_char(0, i);
    let name_raw = st.substring_char(i + 1, len);
    proof {
        assert(code_raw@ =~= st@.take(i as int));
        assert(name_raw@ =~= st@.skip(i as int + 1));
    }
    let code = String::from_str(trimmed(code_raw));
    let name = String::from_str(trimmed(name_raw));
    Ok(Prefecture { code, name })
}

/// What reading a phase cell returns: a text cell handed to the phase
/// parser, whose failure is reported with the cell's position.
pub open spec fn spec_read_phase(g: Seq<Seq<Cell>>, row: u32, col: u32) -> Result<
    Phase,
    ExtractError,
> {
    match cell_at(g, row, col) {
        Option::None => Result::Err(ExtractError::CellMissing { row, col }),
        Option::Some(c) => match c {
            Cell::Text(s) => match spec_parse_phase(s@) {
                Result::Ok(p) => Result::Ok(p),
                Result::Err(e) => Result::Err(ExtractError::CellParse { row, col, cause: e }),
            },
            _ => Result::Err(ExtractError::CellType { row, col }),
        },
    }
}

/// Reads the phase cell of one row.
pub fn read_phase(g: &Grid, row: u32, col: u32) -> (r: Result<Phase, ExtractError>)
    ensures
        r == spec_read_phase(g@, row, col),
{
    match g.cell(row, col) {
        None => Err(ExtractError::CellMissing { row, col }),
        Some(c) => match c {
            Cell::Text(s) => match parse_phase(s.as_str()) {
                Ok(p) => Ok(p),
                Err(e) => Err(ExtractError::CellParse { row, col, cause: e }),
            },
            _ => Err(ExtractError::CellType { row, col }),
        },
    }
}

/// The three inpatient counters of one row, read left to right; the first
/// failure wins.
pub open spec fn spec_patient_count(g: Seq<Seq<Cell>>, l: Layout, row: u32) -> Result<
    PatientCount,
    ExtractError,
> {
    match spec_get_number(g, row, l.inpatient_total_col) {
        Result::Err(e) => Result::Err(e),
        Result::Ok(total) => match spec_get_number(g, row, l.inpatient_dedicated_col) {
            Result::Err(e) => Result::Err(e),
            Result::Ok(dedicated) => match spec_get_number(g, row, l.inpatient_extra_col) {
                Result::Err(e) => Result::Err(e),
                Result::Ok(extra) => Result::Ok(PatientCount { total, dedicated, extra }),
            },
        },
    }
}

/// The three bed counters of one row, read left to right; the first failure
/// wins.
pub open spec fn spec_resource_count(g: Seq<Seq<Cell>>, l: Layout, row: u32) -> Result<
    ResourceCount,
    ExtractError,
> {
    match spec_get_number(g, row, l.available_or_assigned_col) {
        Result::Err(e) => Result::Err(e),
        Result::Ok(available_or_assigned) => match spec_get_number(g, row, l.guaranteed_col) {
            Result::Err(e) => Result::Err(e),
            Result::Ok(guaranteed) => match spec_get_number(g, row, l.extra_guaranteed_col) {
                Result::Err(e) => Result::Err(e),
                Result::Ok(extra_guaranteed) => Result::Ok(
                    ResourceCount { available_or_assigned, guaranteed, extra_guaranteed },
                ),
            },
        },
    }
}

/// What reading one row returns: the prefecture, the phase, and the six
/// counters, in that order; the first failing cell decides the error.
pub open spec fn spec_read_record(g: Seq<Seq<Cell>>, l: Layout, row: u32) -> Result<
    RecordView,
    ExtractError,
> {
    match spec_read_prefecture(g, row, l.prefecture_col) {
        Result::Err(e) => Result::Err(e),
        Result::Ok(prefecture) => match spec_read_phase(g, row, l.phase_col) {
            Result::Err(e) => Result::Err(e),
            Result::Ok(phase) => match spec_patient_count(g, l, row) {
                Result::Err(e) => Result::Err(e),
                Result::Ok(inpatient_count) => match spec_resource_count(g, l, row) {
                    Result::Err(e) => Result::Err(e),
                    Result::Ok(dedicated_bed_count) => Result::Ok(
                        RecordView { prefecture, phase, inpatient_count, dedicated_bed_count },
                    ),
                },
            },
        },
    }
}

/// Reads one validated record from one row of the grid.
pub fn read_record(g: &Grid, l: &Layout, row: u32) -> (r: Result<Record, ExtractError>)
    ensures
        r matches Ok(rec) ==> spec_read_record(g@, *l, row) == Ok::<RecordView, ExtractError>(
            rec@,
        ),
        r matches Err(e) ==> spec_read_record(g@, *l, row) == Err::<RecordView, ExtractError>(e),
{
    let prefecture = match read_prefecture(g, row, l.prefecture_col) {
        Ok(p) => p,
        Err(e) => {
            return Err(e);
        },
    };
    let phase = match read_phase(g, row, l.phase_col) {
        Ok(p) => p,
        Err(e) => {
            return Err(e);
        },
    };
    let total = match get_number(g, row, l.inpatient_total_col) {
        Ok(v) => v,
        Err(e) => {
            return Err(e);
        },
    };
    let dedicated = match get_number(g, row, l.inpatient_dedicated_col) {
        Ok(v) => v,
        Err(e) => {
            return Err(e);
        },
    };
    let extra = match get_number(g, row, l.inpatient_extra_col) {
        Ok(v) => v,
        Err(e) => {
            return Err(e);
        },
    };
    let available_or_assigned = match get_number(g, row, l.available_or_assigned_col) {
        Ok(v) => v,
        Err(e) => {
            return Err(e);
        },
    };
    let guaranteed = match get_number(g, row, l.guaranteed_col) {
        Ok(v) => v,
        Err(e) => {
            return Err(e);
        },
    };
    let extra_guaranteed = match get_number(g, row, l.extra_guaranteed_col) {
        Ok(v) => v,
        Err(e) => {
            return Err(e);
        },
    };
    Ok(
        Record {
            prefecture,
            phase,
            inpatient_count: PatientCount { total, dedicated, extra },
            dedicated_bed_count: ResourceCount {
                available_or_assigned,
                guaranteed,
                extra_guaranteed,
            },
        },
    )
}

/// Reads every row of the configured range, in increasing row order; the
/// first failing row is fatal to the whole pass.
pub fn collect_records(g: &Grid, l: &Layout) -> (r: Result<Vec<Record>, ExtractError>)
    requires
        l.wf(),
    ensures
        r matches Ok(v) ==> {
            &&& v@.len() == l.end_row - l.start_row + 1
            &&& forall|k: int|
                0 <= k < v@.len() ==> spec_read_record(g@, *l, (l.start_row + k) as u32) == Ok::<
                    RecordView,
                    ExtractError,
                >(#[trigger] v@[k]@)
        },
        r matches Err(e) ==> exists|rr: u32|
            {
                &&& l.start_row <= rr <= l.end_row
                &&& #[trigger] spec_read_record(g@, *l, rr) == Err::<RecordView, ExtractError>(e)
                &&& forall|j: u32|
                    l.start_row <= j < rr ==> (#[trigger] spec_read_record(g@, *l, j)) is Ok
            },
{
    let mut out: Vec<Record> = Vec::new();
    let mut row = l.start_row;
    while row <= l.end_row
        invariant
            l.wf(),
            l.start_row <= row <= l.end_row + 1,
            out@.len() == row - l.start_row,
            forall|k: int|
                0 <= k < out@.len() ==> spec_read_record(g@, *l, (l.start_row + k) as u32) == Ok::<
                    RecordView,
                    ExtractError,
                >(#[trigger] out@[k]@),
        decreases l.end_row + 1 - row,
    {
        match read_record(g, l, row) {
            Ok(rec) => {
                out.push(rec);
            },
            Err(e) => {
                proof {
                    assert forall|j: u32| l.start_row <= j < row implies (spec_read_record(
                        g@,
                        *l,
                        j,
                    )) is Ok by {
                        let k = j - l.start_row;
                        assert(spec_read_record(g@, *l, (l.start_row + k as int) as u32) == Ok::<
                            RecordView,
                            ExtractError,
                        >(out@[k as int]@));
                        assert((l.start_row + k as int) as u32 == j);
                    }
                    assert(spec_read_record(g@, *l, row) == Err::<RecordView, ExtractError>(e));
                }
                return Err(e);
            },
        }
        row = row + 1;
    }
    Ok(out)
}

} // verus!
