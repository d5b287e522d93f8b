use daily_todo::persist::data_file_name;
use daily_todo::{Date, TodoApp};

#[test]
fn file_name_holds_the_date_in_fixed_width() {
    assert_eq!(data_file_name(&Date::new(2024, 3, 9).unwrap()), "todos_2024_03_09.json");
    assert_eq!(data_file_name(&Date::new(2024, 12, 31).unwrap()), "todos_2024_12_31.json");
    assert_eq!(data_file_name(&Date::new(1999, 1, 1).unwrap()), "todos_1999_01_01.json");
}

#[test]
fn file_name_pads_short_years_and_signs_long_ones() {
    assert_eq!(data_file_name(&Date::new(0, 1, 1).unwrap()), "todos_0000_01_01.json");
    assert_eq!(data_file_name(&Date::new(7, 10, 20).unwrap()), "todos_0007_10_20.json");
    assert_eq!(data_file_name(&Date::new(987, 6, 5).unwrap()), "todos_0987_06_05.json");
    assert_eq!(data_file_name(&Date::new(9999, 6, 5).unwrap()), "todos_9999_06_05.json");
    assert_eq!(data_file_name(&Date::new(10000, 6, 5).unwrap()), "todos_+10000_06_05.json");
    assert_eq!(data_file_name(&Date::new(-1, 6, 5).unwrap()), "todos_-0001_06_05.json");
    assert_eq!(data_file_name(&Date::new(-12345, 6, 5).unwrap()), "todos_-12345_06_05.json");
    assert_eq!(
        data_file_name(&Date::new(i32::MIN, 6, 5).unwrap()),
        "todos_-2147483648_06_05.json"
    );
    assert_eq!(
        data_file_name(&Date::new(i32::MAX, 6, 5).unwrap()),
        "todos_+2147483647_06_05.json"
    );
}

#[test]
fn file_name_agrees_with_the_format_of_chrono() {
    let years =
        [-262_143, -12_345, -1_000, -999, -1, 0, 1, 999, 1_000, 2024, 9_999, 10_000, 262_142];
    for year in years {
        for (month, day) in [(1, 1), (2, 28), (9, 9), (10, 10), (12, 31)] {
            let theirs = chrono::NaiveDate::from_ymd_opt(year, month, day).unwrap();
            let expected = format!("todos_{}.json", theirs.format("%Y_%m_%d"));
            assert_eq!(data_file_name(&Date::new(year, month, day).unwrap()), expected);
        }
    }
}

#[test]
fn different_dates_have_different_file_names() {
    let mut names = std::collections::HashSet::new();
    let mut count = 0;
    for year in [-10_000, -1, 0, 1, 11, 111, 2024, 10_000, 10_001] {
        for month in 1..=12 {
            for day in [1, 2, 10, 11, 12, 20, 21, 28] {
                names.insert(data_file_name(&Date::new(year, month, day).unwrap()));
                count += 1;
            }
        }
    }
    assert_eq!(names.len(), count);
}

#[test]
fn the_list_names_the_file_of_its_date() {
    let app = TodoApp::new(Date::new(2031, 7, 4).unwrap());
    assert_eq!(app.data_file_name(), "todos_2031_07_04.json");
}
