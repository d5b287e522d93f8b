use daily_todo::{Date, TimeOfDay};

#[test]
fn date_new_takes_the_days_that_exist() {
    assert_eq!(Date::new(2024, 3, 9), Some(Date { year: 2024, month: 3, day: 9 }));
    assert_eq!(Date::new(2024, 2, 29), Some(Date { year: 2024, month: 2, day: 29 }));
    assert_eq!(Date::new(2000, 2, 29), Some(Date { year: 2000, month: 2, day: 29 }));
    assert_eq!(Date::new(0, 2, 29), Some(Date { year: 0, month: 2, day: 29 }));
    assert_eq!(Date::new(-4, 2, 29), Some(Date { year: -4, month: 2, day: 29 }));
    assert_eq!(Date::new(2024, 12, 31), Some(Date { year: 2024, month: 12, day: 31 }));
    assert_eq!(Date::new(2024, 1, 1), Some(Date { year: 2024, month: 1, day: 1 }));
}

#[test]
fn date_new_refuses_the_days_that_do_not_exist() {
    assert_eq!(Date::new(2023, 2, 29), None);
    assert_eq!(Date::new(1900, 2, 29), None);
    assert_eq!(Date::new(-100, 2, 29), None);
    assert_eq!(Date::new(2023, 4, 31), None);
    assert_eq!(Date::new(2023, 6, 31), None);
    assert_eq!(Date::new(2023, 9, 31), None);
    assert_eq!(Date::new(2023, 11, 31), None);
    assert_eq!(Date::new(2023, 1, 32), None);
    assert_eq!(Date::new(2023, 0, 1), None);
    assert_eq!(Date::new(2023, 13, 1), None);
    assert_eq!(Date::new(2023, 5, 0), None);
}

#[test]
fn date_new_agrees_with_the_calendar_of_chrono() {
    for year in [-401, -400, -101, -100, -5, -4, -1, 0, 1, 4, 100, 400, 1900, 2000, 2023, 2024] {
        for month in 0..=13u32 {
            for day in 0..=32u32 {
                let ours = Date::new(year, month, day).is_some();
                let theirs = chrono::NaiveDate::from_ymd_opt(year, month, day).is_some();
                assert_eq!(ours, theirs, "{}-{}-{}", year, month, day);
            }
        }
    }
}

#[test]
fn from_hm_counts_the_seconds_since_midnight() {
    assert_eq!(TimeOfDay::from_hm(0, 0), Some(TimeOfDay { seconds: 0, nanos: 0 }));
    assert_eq!(TimeOfDay::from_hm(9, 30), Some(TimeOfDay { seconds: 34_200, nanos: 0 }));
    assert_eq!(TimeOfDay::from_hm(23, 59), Some(TimeOfDay { seconds: 86_340, nanos: 0 }));
    assert_eq!(TimeOfDay::from_hm(24, 0), None);
    assert_eq!(TimeOfDay::from_hm(0, 60), None);
    assert_eq!(TimeOfDay::from_hm(u32::MAX, u32::MAX), None);
}

#[test]
fn is_after_goes_by_seconds_and_then_by_nanoseconds() {
    let base = TimeOfDay { seconds: 100, nanos: 500 };
    assert!(!base.is_after(&base));
    assert!(TimeOfDay { seconds: 101, nanos: 0 }.is_after(&base));
    assert!(TimeOfDay { seconds: 100, nanos: 501 }.is_after(&base));
    assert!(!TimeOfDay { seconds: 100, nanos: 499 }.is_after(&base));
    assert!(!TimeOfDay { seconds: 99, nanos: 1_999_999_999 }.is_after(&base));
}

#[test]
fn is_after_orders_as_chrono_orders_its_times() {
    let samples = [(0u32, 0u32), (0, 1), (59, 1_500_000_000), (60, 0), (86_399, 999_999_999)];
    for a in samples {
        for b in samples {
            let ours = TimeOfDay { seconds: a.0, nanos: a.1 }
                .is_after(&TimeOfDay { seconds: b.0, nanos: b.1 });
            let theirs = chrono::NaiveTime::from_num_seconds_from_midnight_opt(a.0, a.1).unwrap()
                > chrono::NaiveTime::from_num_seconds_from_midnight_opt(b.0, b.1).unwrap();
            assert_eq!(ours, theirs);
        }
    }
}
