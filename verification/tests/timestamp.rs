use delta_ingest::timestamp::parse_timestamp_micros;

#[test]
fn microsecond_precision_round_trip() {
    assert_eq!(
        parse_timestamp_micros("2024-07-04T19:29:28.625617+00:00"),
        Some(1720121368625617)
    );
}

#[test]
fn epoch_is_zero() {
    assert_eq!(parse_timestamp_micros("1970-01-01T00:00:00Z"), Some(0));
}

#[test]
fn positive_offset_shifts_back() {
    assert_eq!(
        parse_timestamp_micros("1970-01-01T00:00:00+01:00"),
        Some(-3_600_000_000)
    );
}

#[test]
fn negative_offset_shifts_forward() {
    assert_eq!(
        parse_timestamp_micros("1969-12-31T23:59:59-00:01"),
        Some(59_000_000)
    );
}

#[test]
fn lowercase_t_and_z_accepted() {
    assert_eq!(
        parse_timestamp_micros("2024-07-04t19:29:28.625617z"),
        Some(1720121368625617)
    );
}

#[test]
fn nanosecond_precision_is_rejected() {
    assert_eq!(
        parse_timestamp_micros("2024-07-04T19:29:28.625617281+00:00"),
        None
    );
}

#[test]
fn trailing_zero_fraction_is_exact() {
    assert_eq!(
        parse_timestamp_micros("2024-07-04T19:29:28.625617000+00:00"),
        Some(1720121368625617)
    );
    assert_eq!(
        parse_timestamp_micros("2024-07-04T19:29:28.5+00:00"),
        Some(1720121368500000)
    );
}

#[test]
fn missing_offset_is_rejected() {
    assert_eq!(parse_timestamp_micros("2024-07-04T19:29:28"), None);
    assert_eq!(parse_timestamp_micros("2024-07-04T19:29:28.625617"), None);
}

#[test]
fn calendar_bounds_are_checked() {
    assert_eq!(parse_timestamp_micros("2024-13-01T00:00:00Z"), None);
    assert_eq!(parse_timestamp_micros("2024-06-31T00:00:00Z"), None);
    assert_eq!(parse_timestamp_micros("2024-07-04T24:00:00Z"), None);
    assert_eq!(parse_timestamp_micros("2024-07-04T19:60:00Z"), None);
    assert_eq!(parse_timestamp_micros("2024-07-04T19:29:60Z"), None);
    assert_eq!(parse_timestamp_micros("2023-02-29T00:00:00Z"), None);
    assert!(parse_timestamp_micros("2024-02-29T00:00:00Z").is_some());
}

#[test]
fn empty_fraction_is_rejected() {
    assert_eq!(parse_timestamp_micros("2024-07-04T19:29:28.+00:00"), None);
}

#[test]
fn offset_bounds_are_checked() {
    assert_eq!(parse_timestamp_micros("2024-07-04T19:29:28+24:00"), None);
    assert_eq!(parse_timestamp_micros("2024-07-04T19:29:28+01:60"), None);
}

#[test]
fn utc_forms_agree() {
    assert_eq!(
        parse_timestamp_micros("2024-02-29T12:30:45Z"),
        parse_timestamp_micros("2024-02-29T12:30:45+00:00")
    );
    assert_eq!(
        parse_timestamp_micros("2024-02-29T12:30:45Z"),
        parse_timestamp_micros("2024-02-29T13:30:45+01:00")
    );
}
