use daily_todo::display::display_order_at;
use daily_todo::{Date, Message, Priority, TimeOfDay, Timestamp, Todo, TodoApp};

fn at(hour: u32, minute: u32) -> TimeOfDay {
    TimeOfDay::from_hm(hour, minute).unwrap()
}

fn stamp() -> Timestamp {
    Timestamp { date: Date::new(2024, 3, 9).unwrap(), time: at(6, 0), utc_offset: 0 }
}

fn todo(id: usize, completed: bool, due_time: Option<TimeOfDay>, priority: Priority) -> Todo {
    Todo { id, text: format!("task {}", id), completed, due_time, priority, created_at: stamp() }
}

#[test]
fn overdue_beats_priority_and_completed_comes_last() {
    let now = at(12, 0);
    let a = todo(0, false, Some(at(9, 0)), Priority::Low);
    let b = todo(1, false, Some(at(18, 0)), Priority::High);
    let c = todo(2, true, None, Priority::High);
    assert!(a.is_overdue_at(&now));
    assert!(!b.is_overdue_at(&now));
    assert!(!c.is_overdue_at(&now));
    for (list, expected) in [
        (vec![a.clone(), b.clone(), c.clone()], vec![0, 1, 2]),
        (vec![c.clone(), b.clone(), a.clone()], vec![2, 1, 0]),
        (vec![b.clone(), c.clone(), a.clone()], vec![2, 0, 1]),
    ] {
        assert_eq!(display_order_at(&list, &now), expected);
    }
}

#[test]
fn a_due_time_comes_before_no_due_time() {
    let now = at(8, 0);
    let with_time = todo(0, false, Some(at(9, 0)), Priority::Medium);
    let without = todo(1, false, None, Priority::Medium);
    assert!(with_time.sorts_before(&without, &now));
    assert!(!without.sorts_before(&with_time, &now));
    assert_eq!(display_order_at(&vec![without.clone(), with_time.clone()], &now), vec![1, 0]);
    assert_eq!(display_order_at(&vec![with_time, without], &now), vec![0, 1]);
}

#[test]
fn an_earlier_due_time_comes_first() {
    let now = at(8, 0);
    let list = vec![
        todo(0, false, Some(at(17, 30)), Priority::Medium),
        todo(1, false, Some(at(9, 0)), Priority::Medium),
        todo(2, false, Some(at(12, 15)), Priority::Medium),
    ];
    assert_eq!(display_order_at(&list, &now), vec![1, 2, 0]);
}

#[test]
fn priority_orders_tasks_that_are_alike_otherwise() {
    let now = at(8, 0);
    let list = vec![
        todo(0, false, None, Priority::Low),
        todo(1, false, None, Priority::High),
        todo(2, false, None, Priority::Medium),
        todo(3, true, None, Priority::Low),
        todo(4, true, None, Priority::High),
    ];
    assert_eq!(display_order_at(&list, &now), vec![1, 2, 0, 4, 3]);
}

#[test]
fn level_tasks_keep_the_order_in_which_they_were_added() {
    let now = at(8, 0);
    let list = vec![
        todo(0, false, Some(at(10, 0)), Priority::High),
        todo(1, true, None, Priority::Low),
        todo(2, false, Some(at(10, 0)), Priority::High),
        todo(3, true, None, Priority::Low),
        todo(4, false, Some(at(10, 0)), Priority::High),
    ];
    assert_eq!(display_order_at(&list, &now), vec![0, 2, 4, 1, 3]);
}

#[test]
fn display_order_of_no_tasks_is_empty() {
    let list: Vec<Todo> = Vec::new();
    assert_eq!(display_order_at(&list, &at(0, 0)), Vec::<usize>::new());
}

#[test]
fn display_order_names_every_place_once() {
    let now = at(13, 0);
    let priorities = [Priority::High, Priority::Medium, Priority::Low];
    let mut list = Vec::new();
    for id in 0..60usize {
        let due = if id % 4 == 0 {
            None
        } else {
            Some(at((id as u32 * 7) % 24, (id as u32 * 13) % 60))
        };
        list.push(todo(id, id % 5 == 0, due, priorities[id % 3]));
    }
    let order = display_order_at(&list, &now);
    let mut seen = order.clone();
    seen.sort();
    assert_eq!(seen, (0..60).collect::<Vec<usize>>());
    for pair in order.windows(2) {
        let (first, second) = (&list[pair[0]], &list[pair[1]]);
        assert!(!second.sorts_before(first, &now));
        if !first.sorts_before(second, &now) {
            assert!(pair[0] < pair[1]);
        }
    }
    let mut expected: Vec<usize> = (0..60).collect();
    expected.sort_by_key(|&i| {
        let t = &list[i];
        (
            t.completed,
            !t.is_overdue_at(&now),
            t.priority.rank(),
            t.due_time.is_none(),
            t.due_time.map(|d| (d.seconds, d.nanos)),
        )
    });
    assert_eq!(order, expected);
}

#[test]
fn overdue_means_strictly_past_the_due_time() {
    let due = at(9, 0);
    let open = todo(0, false, Some(due), Priority::Medium);
    assert!(!open.is_overdue_at(&at(8, 59)));
    assert!(!open.is_overdue_at(&due));
    assert!(open.is_overdue_at(&TimeOfDay { seconds: due.seconds, nanos: 1 }));
    assert!(open.is_overdue_at(&at(9, 1)));
    assert!(open.is_overdue_at(&at(23, 59)));
}

#[test]
fn completed_tasks_and_tasks_without_due_time_are_never_overdue() {
    let done = todo(0, true, Some(at(0, 0)), Priority::High);
    let free = todo(1, false, None, Priority::High);
    for now in [at(0, 0), at(0, 1), at(12, 0), at(23, 59)] {
        assert!(!done.is_overdue_at(&now));
        assert!(!free.is_overdue_at(&now));
    }
    assert!(!done.is_overdue());
    assert!(!free.is_overdue());
}

#[test]
fn is_overdue_reads_the_local_clock() {
    let start_of_day = todo(0, false, Some(TimeOfDay { seconds: 0, nanos: 0 }), Priority::Low);
    let end_of_day =
        todo(1, false, Some(TimeOfDay { seconds: 86_399, nanos: 1_999_999_999 }), Priority::Low);
    let now = chrono::Local::now().time();
    if now > chrono::NaiveTime::from_hms_opt(0, 0, 1).unwrap() {
        assert!(start_of_day.is_overdue());
    }
    assert!(!end_of_day.is_overdue());
}

#[test]
fn the_list_shows_its_tasks_in_display_order() {
    let noon = Timestamp { date: Date::new(2024, 3, 9).unwrap(), time: at(12, 0), utc_offset: 0 };
    let mut app = TodoApp::new(noon.date);
    for (text, time, priority) in [
        ("low and late", "09:00", Priority::Low),
        ("high and free", "", Priority::High),
        ("done", "", Priority::High),
        ("medium at six", "18:00", Priority::Medium),
    ] {
        app.update_at(Message::TodoInputChanged(text.to_string()), noon);
        app.update_at(Message::TimeInputChanged(time.to_string()), noon);
        app.update_at(Message::PrioritySelected(priority), noon);
        app.update_at(Message::AddTodo, noon);
    }
    app.update_at(Message::ToggleTodo(2), noon);
    assert_eq!(app.display_order_at(&at(12, 0)), vec![0, 1, 3, 2]);
    assert_eq!(app.display_order_at(&at(8, 0)), vec![1, 3, 0, 2]);
    let by_clock = app.display_order();
    let now = chrono::Local::now().time();
    if now < chrono::NaiveTime::from_hms_opt(8, 59, 0).unwrap() {
        assert_eq!(by_clock, vec![1, 3, 0, 2]);
    }
    assert_eq!(by_clock[3], 2);
}
