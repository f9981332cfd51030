use bed_report::date::Timestamp;
use bed_report::report::collect_reports;

fn listing() -> Vec<(String, String)> {
    vec![
        (
            "調査結果（2022年12月25日0時時点）".to_string(),
            "/content/a.xlsx".to_string(),
        ),
        (
            "調査結果（2022年12月23日0時時点）".to_string(),
            "/content/b.xlsx".to_string(),
        ),
        (
            "調査結果（2022年12月21日0時時点）".to_string(),
            "/content/c.xlsx".to_string(),
        ),
    ]
}

fn stop() -> Timestamp {
    Timestamp { year: 2022, month: 12, day: 23, hour: 0, minute: 0 }
}

#[test]
fn test_collect_reports_stops_at_stop_timestamp_inclusive() {
    let rs = collect_reports(&listing(), None, &stop());
    assert_eq!(rs.len(), 2);
    assert_eq!(rs[0].path, "/content/a.xlsx");
    assert_eq!(
        rs[0].timestamp,
        Timestamp { year: 2022, month: 12, day: 25, hour: 0, minute: 0 }
    );
    assert_eq!(rs[1].path, "/content/b.xlsx");
    assert_eq!(rs[1].timestamp, stop());
}

#[test]
fn test_collect_reports_honors_limit() {
    let rs = collect_reports(&listing(), Some(1), &stop());
    assert_eq!(rs.len(), 1);
    assert_eq!(rs[0].path, "/content/a.xlsx");

    let rs = collect_reports(&listing(), Some(0), &stop());
    assert_eq!(rs.len(), 0);
}

#[test]
fn test_collect_reports_stops_at_undated_title() {
    let mut items = listing();
    items[1].0 = "おしらせ".to_string();
    let rs = collect_reports(&items, None, &stop());
    assert_eq!(rs.len(), 1);
    assert_eq!(rs[0].path, "/content/a.xlsx");
}

#[test]
fn test_collect_reports_takes_all_without_stop_match() {
    let far_stop = Timestamp { year: 2020, month: 1, day: 1, hour: 0, minute: 0 };
    let rs = collect_reports(&listing(), None, &far_stop);
    assert_eq!(rs.len(), 3);
    assert_eq!(rs[2].path, "/content/c.xlsx");
}
