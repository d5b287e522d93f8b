use daily_todo::Priority;

#[test]
fn all_lists_the_priorities_from_the_most_urgent() {
    assert_eq!(Priority::all(), &[Priority::High, Priority::Medium, Priority::Low]);
}

#[test]
fn as_str_gives_the_label() {
    assert_eq!(Priority::High.as_str(), "🔴 Tinggi");
    assert_eq!(Priority::Medium.as_str(), "🟡 Sedang");
    assert_eq!(Priority::Low.as_str(), "🟢 Rendah");
}

#[test]
fn emoji_gives_the_sign() {
    assert_eq!(Priority::High.emoji(), "🔴");
    assert_eq!(Priority::Medium.emoji(), "🟡");
    assert_eq!(Priority::Low.emoji(), "🟢");
}

#[test]
fn labels_begin_with_the_sign() {
    for priority in Priority::all() {
        assert!(priority.as_str().starts_with(priority.emoji()));
    }
}

#[test]
fn rank_puts_high_first() {
    assert_eq!(Priority::High.rank(), 0);
    assert_eq!(Priority::Medium.rank(), 1);
    assert_eq!(Priority::Low.rank(), 2);
}

#[test]
fn the_default_priority_is_medium() {
    assert_eq!(Priority::default(), Priority::Medium);
}
