use bed_report::errors::ExtractError;
use bed_report::errors::ParseError;
use bed_report::phase::PhaseMode;
use bed_report::record::collect_records;
use bed_report::record::read_record;
use bed_report::record::Cell;
use bed_report::record::Grid;
use bed_report::record::Layout;

const START_ROW: u32 = 8;

fn int_row(code_name: &str, phase: &str, nums: [i64; 6]) -> Vec<Cell> {
    vec![
        Cell::Text(code_name.to_string()),
        Cell::Empty,
        Cell::Int(nums[0]),
        Cell::Int(nums[1]),
        Cell::Int(nums[2]),
        Cell::Text(phase.to_string()),
        Cell::Int(nums[3]),
        Cell::Int(nums[4]),
        Cell::Int(nums[5]),
    ]
}

fn float_row(code_name: &str, phase: &str, nums: [u32; 6]) -> Vec<Cell> {
    vec![
        Cell::Text(code_name.to_string()),
        Cell::Empty,
        Cell::Float { truncated: nums[0] },
        Cell::Float { truncated: nums[1] },
        Cell::Float { truncated: nums[2] },
        Cell::Text(phase.to_string()),
        Cell::Float { truncated: nums[3] },
        Cell::Float { truncated: nums[4] },
        Cell::Float { truncated: nums[5] },
    ]
}

fn filler_rows(n: u32) -> Vec<Vec<Cell>> {
    (0..n).map(|_| Vec::new()).collect()
}

#[test]
fn test_read_record_normal() {
    let mut cells = filler_rows(START_ROW + 12);
    cells.push(int_row(
        "13 東京都",
        "２／２",
        [3066, 2924, 225, 5005, 7496, 579],
    ));
    let g = Grid { cells };
    let l = Layout::standard();

    let r = read_record(&g, &l, START_ROW + 12).unwrap();
    assert_eq!(r.prefecture.code, "13");
    assert_eq!(r.prefecture.name, "東京都");
    assert_eq!(matches!(r.phase.mode, PhaseMode::Normal), true);
    assert_eq!(r.phase.current, 2);
    assert_eq!(r.phase.maximum, 2);
    assert_eq!(r.inpatient_count.total, 3066);
    assert_eq!(r.inpatient_count.dedicated, 2924);
    assert_eq!(r.inpatient_count.extra, 225);
    assert_eq!(r.dedicated_bed_count.available_or_assigned, 5005);
    assert_eq!(r.dedicated_bed_count.guaranteed, 7496);
    assert_eq!(r.dedicated_bed_count.extra_guaranteed, 579);
}

#[test]
fn test_read_record_emergency() {
    let mut cells = filler_rows(START_ROW + 5);
    cells.push(float_row("06 山形県", "Ⅰ／Ⅱ", [457, 151, 0, 284, 284, 0]));
    let g = Grid { cells };
    let l = Layout::standard();

    let r = read_record(&g, &l, START_ROW + 5).unwrap();
    assert_eq!(r.prefecture.code, "06");
    assert_eq!(r.prefecture.name, "山形県");
    assert_eq!(matches!(r.phase.mode, PhaseMode::Emergency), true);
    assert_eq!(r.phase.current, 1);
    assert_eq!(r.phase.maximum, 2);
    assert_eq!(r.inpatient_count.total, 457);
    assert_eq!(r.inpatient_count.dedicated, 151);
    assert_eq!(r.inpatient_count.extra, 0);
    assert_eq!(r.dedicated_bed_count.available_or_assigned, 284);
    assert_eq!(r.dedicated_bed_count.guaranteed, 284);
    assert_eq!(r.dedicated_bed_count.extra_guaranteed, 0);
}

#[test]
fn test_correct_records() {
    let mut cells = filler_rows(START_ROW);
    for i in 1..=47u32 {
        cells.push(int_row(
            &format!("{:02} 県{}", i, i),
            "１／２",
            [10, 5, 0, 20, 20, 0],
        ));
    }
    let g = Grid { cells };
    let l = Layout::standard();

    let rs = collect_records(&g, &l).unwrap();
    assert_eq!(rs.len(), 47);
    for (i, r) in rs.iter().enumerate() {
        assert_eq!(r.prefecture.code.parse::<usize>().unwrap(), i + 1);
    }
}

#[test]
fn test_missing_cell_is_distinct_from_wrong_type() {
    let g = Grid { cells: filler_rows(3) };
    let l = Layout::standard();
    // The row exists but holds no cells: the prefecture cell is missing.
    assert_eq!(
        read_record(&g, &l, 1).unwrap_err(),
        ExtractError::CellMissing { row: 1, col: 0 }
    );
    // The row itself is outside the grid.
    assert_eq!(
        read_record(&g, &l, 100).unwrap_err(),
        ExtractError::CellMissing { row: 100, col: 0 }
    );

    let mut cells = filler_rows(START_ROW);
    let mut row = int_row("01 県", "１／１", [1, 1, 1, 1, 1, 1]);
    row[2] = Cell::Bool(true);
    cells.push(row);
    let g = Grid { cells };
    assert_eq!(
        read_record(&g, &l, START_ROW).unwrap_err(),
        ExtractError::CellType { row: START_ROW, col: 2 }
    );
}

#[test]
fn test_wrong_shaped_cells() {
    let l = Layout::standard();

    // A prefecture cell without the code/name separator.
    let mut cells = filler_rows(START_ROW);
    cells.push(int_row("13東京都", "２／２", [1, 1, 1, 1, 1, 1]));
    let g = Grid { cells };
    assert_eq!(
        read_record(&g, &l, START_ROW).unwrap_err(),
        ExtractError::CellFormat { row: START_ROW, col: 0 }
    );

    // An integer cell that does not fit the unsigned 32-bit width.
    let mut cells = filler_rows(START_ROW);
    let mut row = int_row("01 県", "１／１", [1, 1, 1, 1, 1, 1]);
    row[3] = Cell::Int(-5);
    cells.push(row);
    let g = Grid { cells };
    assert_eq!(
        read_record(&g, &l, START_ROW).unwrap_err(),
        ExtractError::CellParse {
            row: START_ROW,
            col: 3,
            cause: ParseError::IntegerConversion
        }
    );

    // A phase cell whose text does not parse, reported with its position.
    let mut cells = filler_rows(START_ROW);
    cells.push(int_row("01 県", "あ／い", [1, 1, 1, 1, 1, 1]));
    let g = Grid { cells };
    assert_eq!(
        read_record(&g, &l, START_ROW).unwrap_err(),
        ExtractError::CellParse {
            row: START_ROW,
            col: 5,
            cause: ParseError::RomanDecode('あ')
        }
    );
}

#[test]
fn test_integer_cell_width_boundary() {
    let l = Layout::standard();
    let mut cells = filler_rows(START_ROW);
    let mut row = int_row("01 県", "１／１", [1, 1, 1, 1, 1, 1]);
    // The largest value that fits the unsigned 32-bit width is kept exactly.
    row[2] = Cell::Int(4294967295);
    cells.push(row);
    let g = Grid { cells };
    let r = read_record(&g, &l, START_ROW).unwrap();
    assert_eq!(r.inpatient_count.total, 4294967295);

    let mut cells = filler_rows(START_ROW);
    let mut row = int_row("01 県", "１／１", [1, 1, 1, 1, 1, 1]);
    row[2] = Cell::Int(4294967296);
    cells.push(row);
    let g = Grid { cells };
    assert_eq!(
        read_record(&g, &l, START_ROW).unwrap_err(),
        ExtractError::CellParse {
            row: START_ROW,
            col: 2,
            cause: ParseError::IntegerConversion
        }
    );
}

#[test]
fn test_collect_records_fails_on_first_bad_row() {
    let l = Layout::standard();
    let mut cells = filler_rows(START_ROW);
    cells.push(int_row("01 県", "１／１", [1, 1, 1, 1, 1, 1]));
    // The next row in range is empty, so the pass fails there.
    let g = Grid { cells };
    assert_eq!(
        collect_records(&g, &l).unwrap_err(),
        ExtractError::CellMissing { row: START_ROW + 1, col: 0 }
    );
}
