use candle_audit::error::AuditError;
use candle_audit::schedule::{
    expected_timestamps, next_normalized_time_for_resolution, ExpectedTimestamps,
};
use candle_audit::utc::{
    add_minutes, civil_hour, floor_to_hour, format_utc, is_representable, sub_days,
    utc_timestamp, CivilHour, MAX_UTC_SECONDS, MIN_UTC_SECONDS,
};
use chrono::{DateTime, NaiveDate, Utc};

const MAY_12_2100: i64 = 1715547600;
const MAY_13_0200: i64 = 1715565600;
const MAY_13_0500: i64 = 1715576400;
const MAY_13_0800: i64 = 1715587200;
const MAY_13_1000: i64 = 1715594400;
const MAY_13_1200: i64 = 1715601600;

fn utc(year: i32, month: u32, day: u32, hour: u32, minute: u32) -> i64 {
    NaiveDate::from_ymd_opt(year, month, day)
        .unwrap()
        .and_hms_opt(hour, minute, 0)
        .unwrap()
        .and_utc()
        .timestamp()
}

#[test]
fn known_instants_have_the_known_timestamps() {
    assert_eq!(utc(2024, 5, 12, 21, 0), MAY_12_2100);
    assert_eq!(utc(2024, 5, 13, 2, 0), MAY_13_0200);
    assert_eq!(utc(2024, 5, 13, 5, 0), MAY_13_0500);
    assert_eq!(utc(2024, 5, 13, 8, 0), MAY_13_0800);
    assert_eq!(utc(2024, 5, 13, 10, 0), MAY_13_1000);
    assert_eq!(utc(2024, 5, 13, 12, 0), MAY_13_1200);
}

#[test]
fn range_constants_are_those_of_chrono() {
    assert_eq!(DateTime::<Utc>::MIN_UTC.timestamp(), MIN_UTC_SECONDS);
    assert_eq!(DateTime::<Utc>::MAX_UTC.timestamp(), MAX_UTC_SECONDS);
    assert!(DateTime::from_timestamp(MIN_UTC_SECONDS, 0).is_some());
    assert!(DateTime::from_timestamp(MIN_UTC_SECONDS - 1, 0).is_none());
    assert!(DateTime::from_timestamp(MAX_UTC_SECONDS, 0).is_some());
    assert!(DateTime::from_timestamp(MAX_UTC_SECONDS + 1, 0).is_none());
}

#[test]
fn representable_is_the_closed_range() {
    assert!(is_representable(0));
    assert!(is_representable(MIN_UTC_SECONDS));
    assert!(is_representable(MAX_UTC_SECONDS));
    assert!(!is_representable(MIN_UTC_SECONDS - 1));
    assert!(!is_representable(MAX_UTC_SECONDS + 1));
    assert!(!is_representable(i64::MIN));
    assert!(!is_representable(i64::MAX));
}

#[test]
fn civil_hour_gives_date_and_hour() {
    assert_eq!(
        civil_hour(MAY_12_2100 + 59 * 60 + 59),
        Ok(CivilHour { year: 2024, month: 5, day: 12, hour: 21 })
    );
    assert_eq!(civil_hour(0), Ok(CivilHour { year: 1970, month: 1, day: 1, hour: 0 }));
    assert_eq!(civil_hour(-1), Ok(CivilHour { year: 1969, month: 12, day: 31, hour: 23 }));
    assert_eq!(
        civil_hour(utc(2024, 2, 29, 23, 59)),
        Ok(CivilHour { year: 2024, month: 2, day: 29, hour: 23 })
    );
}

#[test]
fn civil_hour_at_the_ends_of_the_range() {
    assert_eq!(
        civil_hour(MIN_UTC_SECONDS),
        Ok(CivilHour { year: -262143, month: 1, day: 1, hour: 0 })
    );
    assert_eq!(
        civil_hour(MAX_UTC_SECONDS),
        Ok(CivilHour { year: 262142, month: 12, day: 31, hour: 23 })
    );
    assert_eq!(civil_hour(MIN_UTC_SECONDS - 1), Err(AuditError::Arithmetic));
    assert_eq!(civil_hour(MAX_UTC_SECONDS + 1), Err(AuditError::Arithmetic));
}

#[test]
fn utc_timestamp_of_known_instants() {
    assert_eq!(utc_timestamp(2024, 5, 12, 21, 0, 0), Some(1715547600));
    assert_eq!(utc_timestamp(2024, 5, 13, 2, 0, 0), Some(1715565600));
    assert_eq!(utc_timestamp(2024, 5, 13, 5, 0, 0), Some(1715576400));
    assert_eq!(utc_timestamp(2024, 5, 13, 8, 0, 0), Some(1715587200));
    assert_eq!(utc_timestamp(2024, 5, 13, 10, 0, 0), Some(1715594400));
    assert_eq!(utc_timestamp(2024, 5, 13, 12, 0, 0), Some(1715601600));
    assert_eq!(utc_timestamp(1970, 1, 1, 0, 0, 0), Some(0));
    assert_eq!(utc_timestamp(1970, 1, 1, 0, 1, 1), Some(61));
    assert_eq!(utc_timestamp(1969, 12, 31, 23, 59, 59), Some(-1));
    assert_eq!(utc_timestamp(-262143, 1, 1, 0, 0, 0), Some(MIN_UTC_SECONDS));
    assert_eq!(utc_timestamp(262142, 12, 31, 23, 59, 59), Some(MAX_UTC_SECONDS));
}

#[test]
fn utc_timestamp_of_no_such_instant() {
    assert_eq!(utc_timestamp(2024, 2, 30, 0, 0, 0), None);
    assert_eq!(utc_timestamp(2023, 2, 29, 0, 0, 0), None);
    assert_eq!(utc_timestamp(2024, 0, 1, 0, 0, 0), None);
    assert_eq!(utc_timestamp(2024, 13, 1, 0, 0, 0), None);
    assert_eq!(utc_timestamp(2024, 1, 0, 0, 0, 0), None);
    assert_eq!(utc_timestamp(2024, 1, 1, 24, 0, 0), None);
    assert_eq!(utc_timestamp(2024, 1, 1, 0, 60, 0), None);
    assert_eq!(utc_timestamp(2024, 1, 1, 0, 0, 60), None);
    assert_eq!(utc_timestamp(262143, 1, 1, 0, 0, 0), None);
    assert_eq!(utc_timestamp(-262144, 12, 31, 23, 59, 59), None);
    assert_eq!(utc_timestamp(i32::MAX, 1, 1, 0, 0, 0), None);
}

#[test]
fn the_start_of_the_hour_is_its_fields_at_minute_zero() {
    for t in [MAY_12_2100 + 1234, -1, 0, 86399, MIN_UTC_SECONDS + 7, MAX_UTC_SECONDS] {
        let c = civil_hour(t).unwrap();
        assert_eq!(
            utc_timestamp(c.year, c.month, c.day, c.hour, 0, 0),
            Some(t - t.rem_euclid(3600))
        );
        assert_eq!(floor_to_hour(t), Ok(t - t.rem_euclid(3600)));
    }
}

#[test]
fn floor_to_hour_drops_minutes_and_seconds() {
    assert_eq!(floor_to_hour(utc(2024, 5, 13, 10, 7)), Ok(MAY_13_1000));
    assert_eq!(floor_to_hour(MAY_13_1000), Ok(MAY_13_1000));
    assert_eq!(floor_to_hour(MAY_13_1000 + 3599), Ok(MAY_13_1000));
    assert_eq!(floor_to_hour(MAY_13_1000 - 1), Ok(MAY_13_1000 - 3600));
    assert_eq!(floor_to_hour(0), Ok(0));
}

#[test]
fn floor_to_hour_before_the_epoch_rounds_down() {
    assert_eq!(floor_to_hour(-1), Ok(-3600));
    assert_eq!(floor_to_hour(-3600), Ok(-3600));
    assert_eq!(floor_to_hour(-3601), Ok(-7200));
}

#[test]
fn floor_to_hour_at_the_ends_of_the_range() {
    assert_eq!(floor_to_hour(MIN_UTC_SECONDS), Ok(MIN_UTC_SECONDS));
    assert_eq!(floor_to_hour(MAX_UTC_SECONDS), Ok(MAX_UTC_SECONDS - 3599));
    assert_eq!(floor_to_hour(MIN_UTC_SECONDS - 1), Err(AuditError::Arithmetic));
    assert_eq!(floor_to_hour(MAX_UTC_SECONDS + 1), Err(AuditError::Arithmetic));
    assert_eq!(floor_to_hour(i64::MAX), Err(AuditError::Arithmetic));
    assert_eq!(floor_to_hour(i64::MIN), Err(AuditError::Arithmetic));
}

#[test]
fn add_minutes_moves_by_sixty_seconds_each() {
    assert_eq!(add_minutes(MAY_13_1000, 45), Ok(MAY_13_1000 + 2700));
    assert_eq!(add_minutes(MAY_13_1000, 0), Ok(MAY_13_1000));
    assert_eq!(add_minutes(-30, 1), Ok(30));
    assert_eq!(add_minutes(0, u32::MAX), Ok(60 * 4294967295));
}

#[test]
fn add_minutes_fails_past_the_last_instant() {
    assert_eq!(add_minutes(MAX_UTC_SECONDS - 59, 1), Err(AuditError::Arithmetic));
    assert_eq!(add_minutes(MAX_UTC_SECONDS - 60, 1), Ok(MAX_UTC_SECONDS));
    assert_eq!(add_minutes(MAX_UTC_SECONDS + 1, 0), Err(AuditError::Arithmetic));
    assert_eq!(add_minutes(i64::MAX, 1), Err(AuditError::Arithmetic));
}

#[test]
fn sub_days_moves_by_a_day_each() {
    assert_eq!(sub_days(MAY_13_1000, 1), Ok(MAY_13_1000 - 86400));
    assert_eq!(sub_days(MAY_13_1000 + 61, 14), Ok(MAY_13_1000 + 61 - 1209600));
    assert_eq!(sub_days(MAY_13_1000, 0), Ok(MAY_13_1000));
}

#[test]
fn sub_days_fails_before_the_first_instant() {
    assert_eq!(sub_days(MIN_UTC_SECONDS + 86399, 1), Err(AuditError::Arithmetic));
    assert_eq!(sub_days(MIN_UTC_SECONDS + 86400, 1), Ok(MIN_UTC_SECONDS));
    assert_eq!(sub_days(0, u64::MAX), Err(AuditError::Arithmetic));
    assert_eq!(sub_days(0, 1 << 31), Err(AuditError::Arithmetic));
    assert_eq!(sub_days(MIN_UTC_SECONDS - 1, 0), Err(AuditError::Arithmetic));
}

#[test]
fn format_utc_prints_date_time_and_zone() {
    assert_eq!(format_utc(MAY_12_2100).unwrap(), "2024-05-12 21:00:00 UTC");
    assert_eq!(format_utc(0).unwrap(), "1970-01-01 00:00:00 UTC");
    assert_eq!(format_utc(-1).unwrap(), "1969-12-31 23:59:59 UTC");
    assert_eq!(format_utc(MAX_UTC_SECONDS + 1), Err(AuditError::Arithmetic));
}

#[test]
fn next_boundary_is_strictly_after_an_aligned_time() {
    assert_eq!(next_normalized_time_for_resolution(MAY_12_2100, 60), Ok(MAY_12_2100 + 3600));
    assert_eq!(next_normalized_time_for_resolution(MAY_12_2100, 15), Ok(MAY_12_2100 + 900));
    assert_eq!(next_normalized_time_for_resolution(MAY_12_2100, 1), Ok(MAY_12_2100 + 60));
}

#[test]
fn next_boundary_counts_from_the_top_of_the_hour() {
    let t = utc(2024, 5, 13, 10, 7);
    assert_eq!(next_normalized_time_for_resolution(t, 15), Ok(utc(2024, 5, 13, 10, 15)));
    assert_eq!(next_normalized_time_for_resolution(t, 5), Ok(utc(2024, 5, 13, 10, 10)));
    assert_eq!(next_normalized_time_for_resolution(t, 7), Ok(utc(2024, 5, 13, 10, 14)));
    assert_eq!(next_normalized_time_for_resolution(t, 60), Ok(utc(2024, 5, 13, 11, 0)));
    assert_eq!(next_normalized_time_for_resolution(t, 45), Ok(utc(2024, 5, 13, 10, 45)));
    assert_eq!(next_normalized_time_for_resolution(t + 59, 1), Ok(utc(2024, 5, 13, 10, 8)));
}

#[test]
fn next_boundary_with_a_resolution_that_does_not_divide_the_hour() {
    // 11:30 lies in the hour of 11:00, whose grid at 45 minutes is 11:45, 12:30, ...
    assert_eq!(
        next_normalized_time_for_resolution(utc(2024, 5, 13, 11, 30), 45),
        Ok(utc(2024, 5, 13, 11, 45))
    );
    assert_eq!(
        next_normalized_time_for_resolution(utc(2024, 5, 13, 11, 45), 45),
        Ok(utc(2024, 5, 13, 12, 30))
    );
    assert_eq!(
        next_normalized_time_for_resolution(utc(2024, 5, 13, 10, 0), 90),
        Ok(utc(2024, 5, 13, 11, 30))
    );
}

#[test]
fn next_boundary_fails_outside_the_range() {
    assert_eq!(
        next_normalized_time_for_resolution(MAX_UTC_SECONDS + 1, 60),
        Err(AuditError::Arithmetic)
    );
    assert_eq!(
        next_normalized_time_for_resolution(MIN_UTC_SECONDS - 1, 60),
        Err(AuditError::Arithmetic)
    );
    // The last hour of the range has no boundary after it.
    assert_eq!(
        next_normalized_time_for_resolution(MAX_UTC_SECONDS, 60),
        Err(AuditError::Arithmetic)
    );
    assert_eq!(
        next_normalized_time_for_resolution(MAX_UTC_SECONDS - 3599, 59),
        Ok(MAX_UTC_SECONDS - 59)
    );
    assert_eq!(
        next_normalized_time_for_resolution(MIN_UTC_SECONDS, 60),
        Ok(MIN_UTC_SECONDS + 3600)
    );
}

#[test]
fn aligned_hour_window_expects_the_hours_inside() {
    assert_eq!(
        expected_timestamps(MAY_12_2100, MAY_13_0200, 60),
        Ok(vec![
            utc(2024, 5, 12, 22, 0),
            utc(2024, 5, 12, 23, 0),
            utc(2024, 5, 13, 0, 0),
            utc(2024, 5, 13, 1, 0),
        ])
    );
}

#[test]
fn three_hour_window_expects_two_hours() {
    assert_eq!(
        expected_timestamps(MAY_13_0500, MAY_13_0800, 60),
        Ok(vec![utc(2024, 5, 13, 6, 0), utc(2024, 5, 13, 7, 0)])
    );
}

#[test]
fn sub_hour_resolution_is_anchored_to_the_hour_of_from() {
    assert_eq!(
        expected_timestamps(utc(2024, 5, 13, 10, 7), utc(2024, 5, 13, 10, 40), 15),
        Ok(vec![utc(2024, 5, 13, 10, 15), utc(2024, 5, 13, 10, 30)])
    );
}

#[test]
fn resolution_not_dividing_sixty_keeps_the_first_anchor() {
    assert_eq!(
        expected_timestamps(MAY_13_1000, utc(2024, 5, 13, 12, 30), 45),
        Ok(vec![
            utc(2024, 5, 13, 10, 45),
            utc(2024, 5, 13, 11, 30),
            utc(2024, 5, 13, 12, 15),
        ])
    );
}

#[test]
fn resolution_above_an_hour_keeps_the_first_anchor() {
    assert_eq!(
        expected_timestamps(MAY_13_1000, utc(2024, 5, 13, 16, 0), 90),
        Ok(vec![
            utc(2024, 5, 13, 11, 30),
            utc(2024, 5, 13, 13, 0),
            utc(2024, 5, 13, 14, 30),
        ])
    );
}

#[test]
fn window_ends_are_never_expected() {
    let v = expected_timestamps(MAY_13_1000, MAY_13_1200, 60).unwrap();
    assert_eq!(v, vec![utc(2024, 5, 13, 11, 0)]);
    let v = expected_timestamps(MAY_13_1000, MAY_13_1200 + 1, 60).unwrap();
    assert_eq!(v, vec![utc(2024, 5, 13, 11, 0), MAY_13_1200]);
    let v = expected_timestamps(MAY_13_1000 - 1, MAY_13_1200, 60).unwrap();
    assert_eq!(v, vec![MAY_13_1000, utc(2024, 5, 13, 11, 0)]);
}

#[test]
fn empty_window_expects_nothing() {
    assert_eq!(expected_timestamps(MAY_13_1000, MAY_13_1000, 60), Ok(vec![]));
    assert_eq!(expected_timestamps(MAY_13_1000 + 5, MAY_13_1000 + 5, 1), Ok(vec![]));
    assert_eq!(expected_timestamps(MAY_13_1000, MAY_13_1000 + 1, 1), Ok(vec![]));
}

#[test]
fn reversed_window_expects_nothing() {
    assert_eq!(expected_timestamps(MAY_13_1200, MAY_13_1000, 60), Ok(vec![]));
    assert_eq!(expected_timestamps(MAX_UTC_SECONDS, MIN_UTC_SECONDS, 1), Ok(vec![]));
}

#[test]
fn window_outside_the_range_is_an_error() {
    assert_eq!(
        expected_timestamps(MIN_UTC_SECONDS - 1, MAY_13_1000, 60),
        Err(AuditError::Arithmetic)
    );
    assert_eq!(
        expected_timestamps(MAY_13_1000, MAX_UTC_SECONDS + 1, 60),
        Err(AuditError::Arithmetic)
    );
    assert_eq!(expected_timestamps(i64::MIN, i64::MAX, 60), Err(AuditError::Arithmetic));
}

#[test]
fn window_at_the_end_of_the_range_stops_at_the_last_boundary() {
    let last_hour = MAX_UTC_SECONDS - 3599;
    assert_eq!(
        expected_timestamps(last_hour - 7200, MAX_UTC_SECONDS, 60),
        Ok(vec![last_hour - 3600, last_hour])
    );
    assert_eq!(expected_timestamps(last_hour, MAX_UTC_SECONDS, 60), Ok(vec![]));
    assert_eq!(
        expected_timestamps(last_hour, MAX_UTC_SECONDS, 30),
        Ok(vec![last_hour + 1800])
    );
}

#[test]
fn huge_resolution_expects_nothing_in_a_short_window() {
    assert_eq!(expected_timestamps(MAY_13_1000, MAY_13_1200, u32::MAX), Ok(vec![]));
    assert_eq!(expected_timestamps(MAY_13_1000, MAY_13_1200, 121), Ok(vec![]));
    assert_eq!(
        expected_timestamps(MAY_13_1000, MAY_13_1200, 119),
        Ok(vec![MAY_13_1000 + 119 * 60])
    );
}

#[test]
fn two_weeks_of_hours() {
    let from = utc(2024, 5, 1, 12, 34);
    let to = from + 14 * 86400;
    let v = expected_timestamps(from, to, 60).unwrap();
    assert_eq!(v.len(), 14 * 24);
    assert_eq!(v[0], utc(2024, 5, 1, 13, 0));
    assert_eq!(v[v.len() - 1], utc(2024, 5, 15, 12, 0));
}

#[test]
fn enumerator_yields_in_order_and_then_stays_exhausted() {
    let mut e = ExpectedTimestamps::new(MAY_13_0500, MAY_13_0800, 60).unwrap();
    assert_eq!(e.next_timestamp(), Some(utc(2024, 5, 13, 6, 0)));
    assert_eq!(e.next_timestamp(), Some(utc(2024, 5, 13, 7, 0)));
    assert_eq!(e.next_timestamp(), None);
    assert_eq!(e.next_timestamp(), None);
}

#[test]
fn enumerator_of_an_empty_window_yields_nothing() {
    let mut e = ExpectedTimestamps::new(MAY_13_0500, MAY_13_0500, 60).unwrap();
    assert_eq!(e.next_timestamp(), None);
    let mut e = ExpectedTimestamps::new(MAY_13_0800, MAY_13_0500, 60).unwrap();
    assert_eq!(e.next_timestamp(), None);
}

#[test]
fn enumerator_rejects_a_window_outside_the_range() {
    assert!(matches!(
        ExpectedTimestamps::new(MAY_13_0500, MAX_UTC_SECONDS + 1, 60),
        Err(AuditError::Arithmetic)
    ));
    assert!(matches!(
        ExpectedTimestamps::new(MIN_UTC_SECONDS - 1, MAY_13_0500, 60),
        Err(AuditError::Arithmetic)
    ));
}

#[test]
fn enumerator_agrees_with_the_collected_sequence() {
    let from = utc(2024, 5, 13, 10, 7);
    let to = utc(2024, 5, 13, 18, 1);
    for r in [1u32, 7, 15, 45, 60, 90, 240] {
        let all = expected_timestamps(from, to, r).unwrap();
        let mut e = ExpectedTimestamps::new(from, to, r).unwrap();
        for t in &all {
            assert_eq!(e.next_timestamp(), Some(*t));
        }
        assert_eq!(e.next_timestamp(), None);
    }
}

fn windows() -> Vec<(i64, i64)> {
    vec![
        (MAY_12_2100, MAY_13_0200),
        (utc(2024, 5, 13, 10, 7), utc(2024, 5, 13, 23, 59)),
        (utc(2024, 2, 28, 23, 59), utc(2024, 3, 1, 0, 1)),
        (-7201, 7201),
        (MAY_13_1000, MAY_13_1000),
        (MAY_13_1000 + 1, MAY_13_1000 + 2),
    ]
}

#[test]
fn expected_timestamps_lie_strictly_inside_the_window() {
    for (from, to) in windows() {
        for r in [1u32, 2, 7, 15, 45, 60, 61, 90, 1440] {
            for t in expected_timestamps(from, to, r).unwrap() {
                assert!(from < t && t < to);
            }
        }
    }
}

#[test]
fn expected_timestamps_are_one_step_apart() {
    for (from, to) in windows() {
        for r in [1u32, 2, 7, 15, 45, 60, 61, 90, 1440] {
            let v = expected_timestamps(from, to, r).unwrap();
            for i in 1..v.len() {
                assert_eq!(v[i] - v[i - 1], i64::from(r) * 60);
            }
        }
    }
}

#[test]
fn first_expected_timestamp_is_anchored_to_the_hour_of_from() {
    for (from, to) in windows() {
        for r in [1u32, 2, 7, 15, 45, 60, 61, 90, 1440] {
            let v = expected_timestamps(from, to, r).unwrap();
            if let Some(first) = v.first() {
                let offset = first - floor_to_hour(from).unwrap();
                let step = i64::from(r) * 60;
                assert!(offset > 0);
                assert_eq!(offset % step, 0);
                assert!(first - step <= from);
            }
        }
    }
}

#[test]
fn every_anchored_point_inside_the_window_is_expected() {
    for (from, to) in windows() {
        for r in [7u32, 15, 45, 60, 90] {
            let v = expected_timestamps(from, to, r).unwrap();
            let seed = floor_to_hour(from).unwrap();
            let step = i64::from(r) * 60;
            let mut t = seed;
            let mut inside = Vec::new();
            while t < to {
                if t > from {
                    inside.push(t);
                }
                t += step;
            }
            assert_eq!(v, inside);
        }
    }
}
