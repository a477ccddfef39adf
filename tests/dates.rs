use csv_tools::datetime::{
    convert_date_dd_mm_yyyy_to_iso, days_in_month, month_end, parse_us_datetime, replaces_extreme,
    replaces_last_in_month, try_convert_date, DateError, DateTimeParts, nearer_to, replaces_nearest,
};

fn at(year: i32, month: u32, day: u32, hour: u32, minute: u32, second: u32) -> DateTimeParts {
    DateTimeParts { year, month, day, hour, minute, second }
}

#[test]
fn iso_conversion_each_format() {
    assert_eq!(convert_date_dd_mm_yyyy_to_iso("2024-03-05T10:20:30"), Ok("2024-03-05T10:20:30".to_string()));
    assert_eq!(convert_date_dd_mm_yyyy_to_iso("2024-03-05T10:20"), Ok("2024-03-05T10:20:00".to_string()));
    assert_eq!(convert_date_dd_mm_yyyy_to_iso("05/03/2024 10:20:30"), Ok("2024-03-05T10:20:30".to_string()));
    assert_eq!(convert_date_dd_mm_yyyy_to_iso("05/03/2024 10:20"), Ok("2024-03-05T10:20:00".to_string()));
    assert_eq!(convert_date_dd_mm_yyyy_to_iso("12/31/2024 23:59:59"), Ok("2024-12-31T23:59:59".to_string()));
    assert_eq!(convert_date_dd_mm_yyyy_to_iso("12/31/2024 07:05"), Ok("2024-12-31T07:05:00".to_string()));
}

#[test]
fn iso_conversion_rejects_unknown_shape() {
    assert_eq!(
        convert_date_dd_mm_yyyy_to_iso("2024/03/05"),
        Err(DateError::InvalidFormat { value: "2024/03/05".to_string() })
    );
    assert_eq!(
        convert_date_dd_mm_yyyy_to_iso("31/31/2024 10:00"),
        Err(DateError::InvalidFormat { value: "31/31/2024 10:00".to_string() })
    );
}

#[test]
fn iso_text_pads_fields() {
    assert_eq!(at(7, 1, 2, 3, 4, 5).to_iso(), "0007-01-02T03:04:05");
    assert_eq!(at(12345, 11, 30, 0, 0, 0).to_iso(), "+12345-11-30T00:00:00");
    assert_eq!(at(-44, 3, 15, 12, 0, 0).to_iso(), "-0044-03-15T12:00:00");
    assert_eq!(at(2024, 2, 29, 0, 0, 0).to_date_text(), "2024-02-29");
}

#[test]
fn day_first_dates_converted() {
    assert_eq!(try_convert_date("05/03/2024"), Some("2024-03-05".to_string()));
    assert_eq!(try_convert_date("29/02/2024"), Some("2024-02-29".to_string()));
    assert_eq!(try_convert_date("29/02/2023"), None);
    assert_eq!(try_convert_date("31/04/2024"), None);
    assert_eq!(try_convert_date("00/01/2024"), None);
    assert_eq!(try_convert_date("5/3/2024"), None);
    assert_eq!(try_convert_date("05-03-2024"), None);
    assert_eq!(try_convert_date("ACME SA"), None);
    assert_eq!(try_convert_date("+5/03/2024"), Some("2024-03-05".to_string()));
    assert_eq!(try_convert_date("05/03/-202"), Some("-0202-03-05".to_string()));
}

#[test]
fn us_twelve_hour_parse() {
    assert_eq!(parse_us_datetime("03/05/2024 01:02:03 PM"), Some(at(2024, 3, 5, 13, 2, 3)));
    assert_eq!(parse_us_datetime("03/05/2024 12:00:00 AM"), Some(at(2024, 3, 5, 0, 0, 0)));
    assert_eq!(parse_us_datetime("03/05/2024 13:02:03"), None);
}

#[test]
fn extreme_selection() {
    let a = at(2024, 1, 1, 0, 0, 0);
    let b = at(2024, 1, 1, 0, 0, 1);
    assert!(replaces_extreme(None, &a, true));
    assert!(replaces_extreme(Some(b), &a, true));
    assert!(!replaces_extreme(Some(a), &b, true));
    assert!(replaces_extreme(Some(a), &b, false));
    assert!(!replaces_extreme(Some(a), &a, false));
    assert!(!replaces_extreme(Some(a), &a, true));
}

#[test]
fn month_lengths() {
    assert_eq!(days_in_month(2024, 2), 29);
    assert_eq!(days_in_month(2023, 2), 28);
    assert_eq!(days_in_month(1900, 2), 28);
    assert_eq!(days_in_month(2000, 2), 29);
    assert_eq!(days_in_month(-4, 2), 29);
    assert_eq!(days_in_month(2024, 4), 30);
    assert_eq!(days_in_month(2024, 12), 31);
    assert_eq!(month_end(2023, 2), Some(at(2023, 2, 28, 23, 59, 59)));
    assert_eq!(month_end(2024, 4), Some(at(2024, 4, 30, 23, 59, 59)));
    assert_eq!(month_end(400000, 1), None);
}

#[test]
fn last_in_month_selection() {
    let early = at(2024, 5, 2, 8, 0, 0);
    let late = at(2024, 5, 30, 8, 0, 0);
    let other = at(2024, 6, 1, 0, 0, 0);
    assert!(replaces_last_in_month(None, &early, 2024, 5));
    assert!(replaces_last_in_month(Some(early), &late, 2024, 5));
    assert!(!replaces_last_in_month(Some(late), &early, 2024, 5));
    assert!(!replaces_last_in_month(None, &other, 2024, 5));
    assert!(!replaces_last_in_month(None, &early, 2023, 5));
}

#[test]
fn nearest_record_selection() {
    assert_eq!(nearer_to(None, 10, 4), (true, 6));
    assert_eq!(nearer_to(Some(6), 1, 4), (true, 3));
    assert_eq!(nearer_to(Some(3), 7, 4), (false, 3));
    assert_eq!(nearer_to(None, i64::MIN, i64::MAX), (true, u64::MAX));
    let target = at(2024, 1, 31, 23, 59, 59);
    assert_eq!(replaces_nearest(None, &at(2024, 2, 1, 0, 0, 0), &target), (true, Some(1)));
    assert_eq!(replaces_nearest(Some(1), &at(2024, 1, 30, 23, 59, 59), &target), (false, Some(86_400)));
    assert_eq!(replaces_nearest(None, &at(2024, 2, 30, 0, 0, 0), &target), (false, None));
}

#[test]
fn nearest_uses_unix_seconds() {
    let epoch = at(1970, 1, 1, 0, 0, 0);
    assert_eq!(replaces_nearest(None, &at(2015, 5, 15, 0, 0, 0), &epoch), (true, Some(1_431_648_000)));
    assert_eq!(replaces_nearest(None, &at(0, 1, 1, 0, 0, 0), &at(-1, 12, 31, 23, 59, 59)), (true, Some(1)));
    assert_eq!(replaces_nearest(None, &at(2000, 3, 1, 0, 0, 0), &at(2000, 2, 28, 0, 0, 0)), (true, Some(172_800)));
}

fn stated_seconds(d: &DateTimeParts) -> i64 {
    let y = d.year as i64;
    let p = y - 1;
    let before: i64 = (1..d.month).map(|m| days_in_month(d.year, m) as i64).sum();
    let days = p * 365 + p.div_euclid(4) - p.div_euclid(100) + p.div_euclid(400) + before + d.day as i64;
    (days - 719_163) * 86_400 + (d.hour * 3600 + d.minute * 60 + d.second) as i64
}

#[test]
fn unix_seconds_formula_matches_chrono() {
    let epoch = at(1970, 1, 1, 0, 0, 0);
    for year in (-2000..=3000).step_by(7) {
        for month in 1..=12u32 {
            for day in [1, 15, days_in_month(year, month)] {
                let d = at(year, month, day, 13, 7, 9);
                let (_, dist) = replaces_nearest(None, &d, &epoch);
                assert_eq!(dist, Some(stated_seconds(&d).unsigned_abs()), "{:?}", d);
            }
        }
    }
}

#[test]
fn us_text_twelve_hour_clock() {
    assert_eq!(at(2024, 3, 5, 13, 2, 3).to_us_text(), "03/05/2024 01:02:03 PM");
    assert_eq!(at(2024, 3, 5, 0, 0, 0).to_us_text(), "03/05/2024 12:00:00 AM");
    assert_eq!(at(2024, 12, 31, 12, 30, 0).to_us_text(), "12/31/2024 12:30:00 PM");
    assert_eq!(at(7, 1, 2, 11, 59, 59).to_us_text(), "01/02/0007 11:59:59 AM");
}
