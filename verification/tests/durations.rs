use chrono::{DateTime, Duration, Utc};
use otel_broccoli::augmentation::time_range::time_range_from;
use otel_broccoli::augmentation::timestamp::{
    END_NANOS, LEAP_NANOS, MAX_CALENDAR_SECS, MIN_CALENDAR_SECS,
};
use otel_broccoli::augmentation::{
    generate_time_range, parse_time_duration, parse_time_duration_value_and_unit, GenerateError,
    Timestamp,
};
use otel_broccoli::config::Config;

fn chrono_shift(secs: i64, nanos: u32, k: i64) -> (i64, u32) {
    let moved: DateTime<Utc> = DateTime::from_timestamp(secs, nanos).unwrap() + Duration::seconds(k);
    (moved.timestamp(), moved.timestamp_subsec_nanos())
}

#[test]
fn duration_units_are_counted_in_seconds() {
    assert_eq!(parse_time_duration("45s".to_string()), Ok(45));
    assert_eq!(parse_time_duration("10m".to_string()), Ok(600));
    assert_eq!(parse_time_duration("3h".to_string()), Ok(10_800));
    assert_eq!(parse_time_duration("2d".to_string()), Ok(172_800));
    assert_eq!(parse_time_duration("0s".to_string()), Ok(0));
}

#[test]
fn duration_with_unknown_unit_is_zero() {
    assert_eq!(parse_time_duration("10m3d".to_string()), Ok(0));
    assert_eq!(parse_time_duration("10w".to_string()), Ok(0));
    assert_eq!(parse_time_duration("10 m".to_string()), Ok(0));
    assert_eq!(parse_time_duration("10M".to_string()), Ok(0));
    assert_eq!(parse_time_duration("7µ".to_string()), Ok(0));
}

#[test]
fn duration_without_number_or_unit_is_refused() {
    assert_eq!(parse_time_duration("m10".to_string()), Err(GenerateError::DurationParse));
    assert_eq!(parse_time_duration("10".to_string()), Err(GenerateError::DurationParse));
    assert_eq!(parse_time_duration("".to_string()), Err(GenerateError::DurationParse));
    assert_eq!(parse_time_duration("-5m".to_string()), Err(GenerateError::DurationParse));
    assert_eq!(parse_time_duration("+5m".to_string()), Err(GenerateError::DurationParse));
    assert_eq!(parse_time_duration(" 5m".to_string()), Err(GenerateError::DurationParse));
}

#[test]
fn duration_number_beyond_64_bits_is_refused() {
    assert_eq!(
        parse_time_duration_value_and_unit("9223372036854775807s".to_string()),
        Some((i64::MAX, "s".to_string()))
    );
    assert_eq!(parse_time_duration_value_and_unit("9223372036854775808s".to_string()), None);
    assert_eq!(
        parse_time_duration("99999999999999999999m".to_string()),
        Err(GenerateError::DurationParse)
    );
}

#[test]
fn duration_too_long_for_seconds_is_out_of_range() {
    assert_eq!(parse_time_duration("9223372036854775807s".to_string()), Ok(i64::MAX));
    assert_eq!(
        parse_time_duration("9223372036854775807m".to_string()),
        Err(GenerateError::DurationOutOfRange)
    );
    assert_eq!(
        parse_time_duration("106751991167301d".to_string()),
        Err(GenerateError::DurationOutOfRange)
    );
    assert_eq!(
        parse_time_duration("106751991167300d".to_string()),
        Ok(106_751_991_167_300 * 86_400)
    );
    // an unknown unit makes any number zero seconds
    assert_eq!(parse_time_duration("9223372036854775807y".to_string()), Ok(0));
}

#[test]
fn duration_number_keeps_leading_zeros_out() {
    assert_eq!(
        parse_time_duration_value_and_unit("007s".to_string()),
        Some((7, "s".to_string()))
    );
    assert_eq!(
        parse_time_duration_value_and_unit("0000000000000000000000012h".to_string()),
        Some((12, "h".to_string()))
    );
    assert_eq!(
        parse_time_duration_value_and_unit("3é5".to_string()),
        Some((3, "é5".to_string()))
    );
}

#[test]
fn timestamp_steps_as_chrono_does() {
    let plain = Timestamp::new(1_640_995_200, 250_000_000);
    for k in [-86_400i64, -1, 0, 1, 59, 600] {
        let moved = plain.checked_add_seconds(k).unwrap();
        assert_eq!((moved.secs, moved.nanos), chrono_shift(plain.secs, plain.nanos, k));
    }
    assert_eq!(plain.checked_add_seconds(600), Some(Timestamp::new(1_640_995_800, 250_000_000)));
}

#[test]
fn timestamp_steps_out_of_a_leap_second_as_chrono_does() {
    // 2016-12-31T23:59:60.5Z
    let leap = Timestamp::new(1_483_228_799, 1_500_000_000);
    for k in [-61i64, -1, 0, 1, 2, 3_600] {
        let moved = leap.checked_add_seconds(k).unwrap();
        assert_eq!((moved.secs, moved.nanos), chrono_shift(leap.secs, leap.nanos, k));
    }
    assert_eq!(leap.checked_add_seconds(0), Some(leap));
    assert_eq!(leap.checked_add_seconds(1), Some(Timestamp::new(1_483_228_800, 500_000_000)));
    assert_eq!(leap.checked_add_seconds(-1), Some(Timestamp::new(1_483_228_799, 500_000_000)));
}

#[test]
fn timestamp_step_beyond_the_last_second_is_none() {
    let late = Timestamp::new(i64::MAX - 5, 0);
    assert_eq!(late.checked_add_seconds(5), Some(Timestamp::new(i64::MAX, 0)));
    assert_eq!(late.checked_add_seconds(6), None);
    let early = Timestamp::new(i64::MIN, 0);
    assert_eq!(early.checked_add_seconds(-1), None);
    let early_leap = Timestamp::new(i64::MIN, 1_000_000_000);
    assert_eq!(early_leap.checked_add_seconds(-1), Some(Timestamp::new(i64::MIN, 0)));
}

#[test]
fn time_range_without_duration_ends_where_it_starts() {
    let start = Timestamp::new(1_000, 5);
    assert_eq!(time_range_from(start, &None), Ok((start, start)));
}

#[test]
fn time_range_ends_duration_after_start() {
    let start = Timestamp::new(1_640_995_200, 0);
    assert_eq!(
        time_range_from(start, &Some("10m".to_string())),
        Ok((start, Timestamp::new(1_640_995_800, 0)))
    );
    assert_eq!(
        time_range_from(start, &Some("10x".to_string())),
        Ok((start, start))
    );
    assert_eq!(
        time_range_from(start, &Some("x".to_string())),
        Err(GenerateError::DurationParse)
    );
    assert_eq!(
        time_range_from(start, &Some("9223372036854775807h".to_string())),
        Err(GenerateError::DurationOutOfRange)
    );
    assert_eq!(
        time_range_from(start, &Some("9223372036854775807s".to_string())),
        Err(GenerateError::WindowOutOfRange)
    );
}

#[test]
fn time_range_reads_fixed_start_with_its_offset() {
    let mut cfg = Config::new();
    cfg.set_use_now_as_timestamp(Some(false));
    cfg.set_timestamp_format(Some("%Y-%m-%dT%H:%M:%S%.f%:z".to_string()));
    cfg.set_start_timestamp(Some("2022-01-01T00:00:00.000+00:00".to_string()));
    cfg.set_generation_duration(Some("10m".to_string()));
    assert_eq!(
        generate_time_range(&cfg),
        Ok((Timestamp::new(1_640_995_200, 0), Timestamp::new(1_640_995_800, 0)))
    );

    cfg.set_start_timestamp(Some("2022-01-01T02:00:00.250+02:00".to_string()));
    cfg.set_generation_duration(None);
    assert_eq!(
        generate_time_range(&cfg),
        Ok((Timestamp::new(1_640_995_200, 250_000_000), Timestamp::new(1_640_995_200, 250_000_000)))
    );
}

#[test]
fn time_range_reads_a_leap_second() {
    let mut cfg = Config::new();
    cfg.set_use_now_as_timestamp(Some(false));
    cfg.set_timestamp_format(Some("%Y-%m-%dT%H:%M:%S%.f%:z".to_string()));
    cfg.set_start_timestamp(Some("2016-12-31T23:59:60.500+00:00".to_string()));
    cfg.set_generation_duration(Some("1s".to_string()));
    assert_eq!(
        generate_time_range(&cfg),
        Ok((
            Timestamp::new(1_483_228_799, 1_500_000_000),
            Timestamp::new(1_483_228_800, 500_000_000)
        ))
    );
}

#[test]
fn time_range_names_value_format_and_reason_of_a_bad_start() {
    let mut cfg = Config::new();
    cfg.set_use_now_as_timestamp(Some(false));
    cfg.set_timestamp_format(Some("invalid-simply".to_string()));
    cfg.set_start_timestamp(Some("2022-01-01T00:00:00.000+00:00".to_string()));
    cfg.set_generation_duration(Some("10m".to_string()));
    let error = generate_time_range(&cfg).unwrap_err();
    assert_eq!(
        error,
        GenerateError::TimestampParse {
            value: "2022-01-01T00:00:00.000+00:00".to_string(),
            format: "invalid-simply".to_string(),
            reason: "input contains invalid characters".to_string(),
        }
    );
    assert_eq!(
        error.message(),
        "failed to parse start_timestamp [2022-01-01T00:00:00.000+00:00] with format [invalid-simply]: input contains invalid characters"
    );
}

#[test]
fn time_range_reports_the_start_before_the_duration() {
    let mut cfg = Config::new();
    cfg.set_use_now_as_timestamp(Some(false));
    cfg.set_timestamp_format(Some("%Y-%m-%d".to_string()));
    cfg.set_start_timestamp(Some("yesterday".to_string()));
    cfg.set_generation_duration(Some("soon".to_string()));
    assert!(matches!(
        generate_time_range(&cfg),
        Err(GenerateError::TimestampParse { .. })
    ));
    cfg.set_use_now_as_timestamp(Some(true));
    assert_eq!(generate_time_range(&cfg), Err(GenerateError::DurationParse));
}

#[test]
fn time_range_starts_now_unless_told_otherwise() {
    let mut cfg = Config::new();
    cfg.set_generation_duration(Some("1h".to_string()));
    let before = Utc::now();
    let (start, end) = generate_time_range(&cfg).unwrap();
    let after = Utc::now();
    assert!(before.timestamp() <= start.secs && start.secs <= after.timestamp());
    // both ends come from one reading of the clock
    assert_eq!(end, Timestamp::new(start.secs + 3_600, start.nanos));
}

#[test]
fn error_messages_name_the_cause() {
    assert_eq!(
        GenerateError::DurationParse.message(),
        "failed to parse time duration value and unit"
    );
    assert_eq!(
        GenerateError::UnsupportedModel { model: "gaussian".to_string() }.message(),
        "unknown distribution model [gaussian]"
    );
    assert_eq!(
        GenerateError::ZeroDuration.message(),
        "time duration must be at least one second"
    );
    assert_eq!(
        GenerateError::DurationOutOfRange.message(),
        "time duration is too long to count in seconds"
    );
    assert_eq!(
        GenerateError::WindowOutOfRange.message(),
        "time range reaches beyond the instants that can be represented"
    );
    assert_eq!(
        GenerateError::CountOutOfRange.message(),
        "number of entries is too large for one datapoint"
    );
}

#[test]
fn calendar_ends_where_chrono_ends() {
    assert_eq!(MIN_CALENDAR_SECS, DateTime::<Utc>::MIN_UTC.timestamp());
    assert_eq!(MAX_CALENDAR_SECS, DateTime::<Utc>::MAX_UTC.timestamp());
    assert!(DateTime::from_timestamp(MAX_CALENDAR_SECS, 999_999_999).is_some());
    assert!(DateTime::from_timestamp(MAX_CALENDAR_SECS + 1, 0).is_none());
    assert!(DateTime::from_timestamp(MIN_CALENDAR_SECS, 0).is_some());
    assert!(DateTime::from_timestamp(MIN_CALENDAR_SECS - 1, 0).is_none());
}

#[test]
fn nanoseconds_end_where_chrono_ends_them() {
    assert_eq!(LEAP_NANOS, 1_000_000_000);
    assert_eq!(END_NANOS, 2_000_000_000);
    assert!(DateTime::from_timestamp(1_483_228_799, END_NANOS - 1).is_some());
    assert!(DateTime::from_timestamp(1_483_228_799, END_NANOS).is_none());
    assert_eq!(DateTime::<Utc>::MAX_UTC.timestamp_subsec_nanos(), LEAP_NANOS - 1);
}

#[test]
fn clock_reading_lies_on_the_calendar_and_in_no_leap_second() {
    let mut cfg = Config::new();
    cfg.set_generation_duration(Some("9223363826587898s".to_string()));
    for _ in 0..50 {
        let (start, end) = generate_time_range(&cfg).unwrap();
        assert!(MIN_CALENDAR_SECS <= start.secs && start.secs <= MAX_CALENDAR_SECS);
        assert!(start.nanos < LEAP_NANOS);
        assert_eq!(end.secs, start.secs + 9_223_363_826_587_898);
    }
}

#[test]
fn steps_in_one_direction_add_up() {
    for start in [Timestamp::new(1_640_995_200, 7), Timestamp::new(1_483_228_799, 1_999_999_999)] {
        for (a, b) in [(0i64, 0i64), (0, 5), (5, 0), (1, 1), (3, 600), (-1, -1), (-4, 0), (-60, -7)] {
            let by_steps = start.checked_add_seconds(a).unwrap().checked_add_seconds(b).unwrap();
            assert_eq!(Some(by_steps), start.checked_add_seconds(a + b));
        }
    }
}
