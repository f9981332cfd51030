use bed_report::date::extract_datetime;
use bed_report::date::Timestamp;
use chrono::TimeZone;
use chrono_tz::Asia::Tokyo;

const TITLE_A_20221130_0000: &str = "入院患者受入病床数等に関する調査結果（2022年11月30日0時時点）";
const TITLE_A_20221130_0005: &str = "入院患者受入病床数等に関する調査結果（2022年11月30日0時5分時点）";
const TITLE_U_2022_9_5_0000: &str = "（２０２２年９月５日０時時点）";
const TITLE_U_20220905_0030: &str = "（２０２２年０９月０５日０時３０分時点）";

fn fmt(ts: &Timestamp) -> String {
    Tokyo
        .with_ymd_and_hms(ts.year, ts.month, ts.day, ts.hour, ts.minute, 0)
        .unwrap()
        .format("%Y-%m-%d %H:%M")
        .to_string()
}

#[test]
fn test_parse_date() {
    let d = extract_datetime(TITLE_A_20221130_0000).unwrap();
    assert_eq!(fmt(&d), "2022-11-30 00:00");

    let d = extract_datetime(TITLE_A_20221130_0005).unwrap();
    assert_eq!(fmt(&d), "2022-11-30 00:05");

    let d = extract_datetime(TITLE_U_2022_9_5_0000).unwrap();
    assert_eq!(fmt(&d), "2022-09-05 00:00");

    let d = extract_datetime(TITLE_U_20220905_0030).unwrap();
    assert_eq!(fmt(&d), "2022-09-05 00:30");
}

#[test]
#[allow(deprecated)]
fn test_iso8601() {
    let dt = Tokyo
        .datetime_from_str("20120317T1748JST", "%Y%m%dT%H%M%Z")
        .unwrap();
    println!("{}", dt);
}

#[test]
fn test_extract_datetime_fields() {
    let d = extract_datetime(TITLE_A_20221130_0005).unwrap();
    assert_eq!(d.year, 2022);
    assert_eq!(d.month, 11);
    assert_eq!(d.day, 30);
    assert_eq!(d.hour, 0);
    assert_eq!(d.minute, 5);
}

#[test]
fn test_fullwidth_titles_match_ascii_titles() {
    let a = extract_datetime("（2022年9月5日0時時点）").unwrap();
    let u = extract_datetime(TITLE_U_2022_9_5_0000).unwrap();
    assert_eq!(a, u);

    let a = extract_datetime("（2022年09月05日0時30分時点）").unwrap();
    let u = extract_datetime(TITLE_U_20220905_0030).unwrap();
    assert_eq!(a, u);
}

#[test]
fn test_pattern_mismatch_yields_none() {
    assert_eq!(extract_datetime("調査結果のお知らせ"), None);
    // Not anchored at the end of the string.
    assert_eq!(extract_datetime("（2022年11月30日0時時点）の結果"), None);
    // A marker without its digit run.
    assert_eq!(extract_datetime("（2022年11月30日時時点）"), None);
    assert_eq!(extract_datetime(""), None);
}

#[test]
fn test_invalid_calendar_date_yields_none() {
    // The pattern matches but the Tokyo zone has no such local time.
    assert_eq!(extract_datetime("（2022年2月30日0時時点）"), None);
    assert_eq!(extract_datetime("（2022年13月1日0時時点）"), None);
    assert_eq!(extract_datetime("（2022年11月30日25時時点）"), None);
}
