use tgb_cli::datetime::{
    is_not_later, now_shanghai, parse_blog_date, parse_datetime, parse_datetime_in_year,
    resolve_published_at, resolve_published_at_in_year, shanghai_offset, DateErrorKind,
    SHANGHAI_OFFSET_SECS,
};

#[test]
fn parses_accepted_forms() {
    let d = parse_datetime("2026-07-28T09:30:00+08:00").unwrap();
    assert_eq!(d.rfc3339, "2026-07-28T09:30:00+08:00");
    let d = parse_datetime("  2026-07-28 09:30 ").unwrap();
    assert_eq!(d.rfc3339, "2026-07-28T09:30:00+08:00");
    assert_eq!(d.offset_secs, SHANGHAI_OFFSET_SECS);
    let d = parse_datetime("2026-07-28 09:30:15").unwrap();
    assert_eq!(d.local.second, 15);
    let d = parse_datetime("2026-07-28T09:30").unwrap();
    assert_eq!(d.local.hour, 9);
    let d = parse_datetime_in_year("07-28 09:30", 2024).unwrap();
    assert_eq!(d.rfc3339, "2024-07-28T09:30:00+08:00");
}

#[test]
fn plain_dates_are_unsupported() {
    let e = parse_datetime("2026-07-28").unwrap_err();
    assert_eq!(e.kind, DateErrorKind::Unsupported);
    assert_eq!(e.message(), "unsupported datetime '2026-07-28'; use RFC3339 or YYYY-MM-DD HH:MM");
}

#[test]
fn ordering_compares_instants_across_offsets() {
    let a = parse_datetime("2026-01-01T00:00:00+08:00").unwrap();
    let b = parse_datetime("2025-12-31T16:00:00Z").unwrap();
    assert!(is_not_later(&a, &b) && is_not_later(&b, &a));
    let c = parse_datetime("2025-12-31T16:00:00.5Z").unwrap();
    assert!(is_not_later(&a, &c) && !is_not_later(&c, &a));
    let d = parse_datetime("1969-12-31 23:59").unwrap();
    assert!(is_not_later(&d, &a));
}

#[test]
fn month_day_dates_take_the_year_that_fits_the_range() {
    let from = parse_datetime("2025-12-31 00:00").unwrap();
    let to = parse_datetime("2026-01-01 12:00").unwrap();
    assert_eq!(
        resolve_published_at_in_year("12-31 23:50", &from, &to, 2030).as_deref(),
        Some("2025-12-31T23:50:00+08:00")
    );
    assert_eq!(
        resolve_published_at_in_year("01-01 08:00", &from, &to, 2030).as_deref(),
        Some("2026-01-01T08:00:00+08:00")
    );
    assert_eq!(resolve_published_at_in_year("06-01 08:00", &from, &to, 2030), None);
    assert_eq!(resolve_published_at_in_year("   ", &from, &to, 2030), None);
    assert_eq!(
        resolve_published_at("2020-05-05 05:05", from, to).as_deref(),
        Some("2020-05-05T05:05:00+08:00")
    );
}

#[test]
fn blog_dates() {
    assert_eq!(parse_blog_date("2026-07-26", 2026).as_deref(), Some("2026-07-26T00:00:00+08:00"));
    assert_eq!(parse_blog_date("昨天", 2026), None);
}

#[test]
fn shanghai_is_eight_hours_east() {
    assert_eq!(shanghai_offset(), 28800);
    assert_eq!(now_shanghai().offset_secs, 28800);
    assert!(now_shanghai().rfc3339.ends_with("+08:00"));
}

#[test]
fn rfc3339_text_reads_back_with_whitespace_around() {
    for text in [
        "2026-07-28T09:30:00+08:00",
        "2025-12-31 23:50",
        "07-28 09:30",
        "2026-07-28T01:02:03.004500-05:30",
    ] {
        let d = parse_datetime(text).unwrap();
        let again = parse_datetime(&format!(" \t{}\n ", d.rfc3339)).unwrap();
        assert_eq!(again.local, d.local);
        assert_eq!(again.offset_secs, d.offset_secs);
        assert_eq!(again.rfc3339, d.rfc3339);
    }
    let now = now_shanghai();
    let again = parse_datetime(&now.rfc3339).unwrap();
    assert_eq!((again.local, again.offset_secs), (now.local, now.offset_secs));
}
