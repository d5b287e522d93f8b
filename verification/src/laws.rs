//! What holds of the task list whatever the user does.

use crate::clock::{TimeOfDay, Timestamp};
use crate::display::{is_display_order, lemma_shown_before_total, shown_before};
use crate::models::{Effect, Message, TodoAppView, TodoView};
use crate::store::{
    distinct_below, lemma_filter_distinct_below, lemma_next_free_id, loadable, next_free_id,
    other_than, still_open, toggle_if,
};
use crate::text::{is_blank, is_white_space, lemma_trimmed, lemma_trimmed_blank, trimmed};
use vstd::prelude::*;

verus! {

/// A filter keeps all of a sequence whose elements all pass it.
proof fn lemma_filter_all<A>(s: Seq<A>, keep: spec_fn(A) -> bool)
    requires
        forall|i: int| 0 <= i < s.len() ==> keep(#[trigger] s[i]),
    ensures
        s.filter(keep) == s,
    decreases s.len(),
{
    reveal(Seq::filter);
    if s.len() > 0 {
        let rest = s.drop_last();
        assert forall|i: int| 0 <= i < rest.len() implies keep(#[trigger] rest[i]) by {
            assert(rest[i] == s[i]);
        }
        lemma_filter_all(rest, keep);
        assert(rest.push(s.last()) =~= s);
    }
}

/// Filtering a second time changes nothing.
proof fn lemma_filter_twice<A>(s: Seq<A>, keep: spec_fn(A) -> bool)
    ensures
        s.filter(keep).filter(keep) == s.filter(keep),
{
    let once = s.filter(keep);
    assert forall|i: int| 0 <= i < once.len() implies keep(#[trigger] once[i]) by {
        s.lemma_filter_pred(keep, i);
    }
    lemma_filter_all(once, keep);
}

/// Of tasks with distinct ids, leaving out an id leaves out one task where
/// the id is in use, and none where it is not.
proof fn lemma_without_id_len(todos: Seq<TodoView>, id: usize)
    requires
        forall|i: int, j: int|
            0 <= i < j < todos.len() ==> (#[trigger] todos[i]).id != (#[trigger] todos[j]).id,
    ensures
        todos.filter(other_than(id)).len() == if exists|i: int|
            0 <= i < todos.len() && (#[trigger] todos[i]).id == id {
            todos.len() - 1
        } else {
            todos.len() as int
        },
    decreases todos.len(),
{
    reveal(Seq::filter);
    if todos.len() > 0 {
        let rest = todos.drop_last();
        let last = todos.last();
        assert forall|i: int| 0 <= i < rest.len() implies (#[trigger] rest[i]) == todos[i] by {}
        lemma_without_id_len(rest, id);
        if last.id == id {
            assert(todos[todos.len() - 1].id == id);
            if exists|i: int| 0 <= i < rest.len() && (#[trigger] rest[i]).id == id {
                let i = choose|i: int| 0 <= i < rest.len() && (#[trigger] rest[i]).id == id;
                assert(todos[i].id == todos[todos.len() - 1].id);
            }
        } else {
            if exists|i: int| 0 <= i < todos.len() && (#[trigger] todos[i]).id == id {
                let i = choose|i: int| 0 <= i < todos.len() && (#[trigger] todos[i]).id == id;
                assert(rest[i].id == id);
            }
            if exists|i: int| 0 <= i < rest.len() && (#[trigger] rest[i]).id == id {
                let i = choose|i: int| 0 <= i < rest.len() && (#[trigger] rest[i]).id == id;
                assert(todos[i].id == id);
            }
        }
    }
}

/// Adding a task whose text is not blank makes the list one task longer.
/// The new task stands last, open, under an id that no task had and that is
/// above all the others, and with the typed text without the white space
/// around it; the tasks before it are as they were.
pub proof fn lemma_add_todo_appends(
    list: TodoAppView,
    due_time: Option<TimeOfDay>,
    created_at: Timestamp,
)
    requires
        list.wf(),
        list.next_id < usize::MAX,
        !is_blank(list.todo_input),
    ensures
        ({
            let after = list.add_todo(due_time, created_at);
            &&& after.wf()
            &&& after.todos.len() == list.todos.len() + 1
            &&& after.todos.drop_last() == list.todos
            &&& !list.has_id(after.todos.last().id)
            &&& forall|i: int|
                0 <= i < list.todos.len() ==> (#[trigger] list.todos[i]).id
                    < after.todos.last().id
            &&& !after.todos.last().completed
            &&& after.todos.last().text == trimmed(list.todo_input)
            &&& after.todos.last().text.len() > 0
            &&& !is_white_space(after.todos.last().text.first())
            &&& !is_white_space(after.todos.last().text.last())
        }),
{
    let after = list.add_todo(due_time, created_at);
    lemma_trimmed_blank(list.todo_input);
    lemma_trimmed(list.todo_input);
    assert(after.todos.drop_last() =~= list.todos);
}

/// Adding a task whose text is empty or all white space changes nothing.
pub proof fn lemma_add_blank_changes_nothing(
    list: TodoAppView,
    due_time: Option<TimeOfDay>,
    created_at: Timestamp,
)
    requires
        is_blank(list.todo_input),
    ensures
        list.add_todo(due_time, created_at) == list,
        list.step(Message::AddTodo, created_at) == (list, Effect::Nothing),
{
    lemma_trimmed_blank(list.todo_input);
}

/// Toggling a task flips its flag and nothing else, and toggling it twice
/// brings the list back.
pub proof fn lemma_toggle_twice(list: TodoAppView, id: usize)
    ensures
        list.toggle_todo(id).toggle_todo(id) == list,
        list.toggle_todo(id).todos.len() == list.todos.len(),
        forall|i: int|
            0 <= i < list.todos.len() ==> #[trigger] list.toggle_todo(id).todos[i] == if list.todos[i]
                .id == id {
                list.todos[i].toggled()
            } else {
                list.todos[i]
            },
{
    assert(list.toggle_todo(id).toggle_todo(id).todos =~= list.todos);
}

/// Deleting an id removes the one task that has it, or none where no task
/// has it, and leaves no task with that id.
pub proof fn lemma_delete_removes_at_most_one(list: TodoAppView, id: usize)
    requires
        list.wf(),
    ensures
        list.delete_todo(id).wf(),
        !list.delete_todo(id).has_id(id),
        list.delete_todo(id).todos.len() == if list.has_id(id) {
            list.todos.len() - 1
        } else {
            list.todos.len() as int
        },
{
    let after = list.delete_todo(id);
    lemma_filter_distinct_below(list.todos, other_than(id), list.next_id as int);
    lemma_without_id_len(list.todos, id);
    assert forall|i: int| 0 <= i < after.todos.len() implies (#[trigger] after.todos[i]).id
        != id by {
        list.todos.lemma_filter_pred(other_than(id), i);
    }
}

/// Deleting the same id again changes nothing.
pub proof fn lemma_delete_twice(list: TodoAppView, id: usize)
    ensures
        list.delete_todo(id).delete_todo(id) == list.delete_todo(id),
{
    lemma_filter_twice(list.todos, other_than(id));
}

/// Clearing leaves no completed task, and clearing again changes nothing.
pub proof fn lemma_clear_completed(list: TodoAppView)
    ensures
        forall|i: int|
            0 <= i < list.clear_completed().todos.len() ==> !(
            #[trigger] list.clear_completed().todos[i]).completed,
        list.clear_completed().clear_completed() == list.clear_completed(),
        list.wf() ==> list.clear_completed().wf(),
{
    let after = list.clear_completed();
    assert forall|i: int| 0 <= i < after.todos.len() implies !(
    #[trigger] after.todos[i]).completed by {
        list.todos.lemma_filter_pred(still_open(), i);
    }
    lemma_filter_twice(list.todos, still_open());
    if list.wf() {
        lemma_filter_distinct_below(list.todos, still_open(), list.next_id as int);
    }
}

/// Reading back the tasks that a list holds gives the same tasks. The id to
/// go on with is worked out anew from them, and is not above the one that
/// the list had.
pub proof fn lemma_load_what_was_held(list: TodoAppView)
    requires
        list.wf(),
    ensures
        list.load_todos(Some(list.todos)).todos == list.todos,
        list.load_todos(Some(list.todos)).next_id == next_free_id(list.todos),
        list.load_todos(Some(list.todos)).next_id <= list.next_id,
        list.load_todos(Some(list.todos)).wf(),
{
    lemma_next_free_id(list.todos);
}

/// Reading where there is no file, or none that can be understood, gives an
/// empty list whose ids start at 0.
pub proof fn lemma_load_nothing(list: TodoAppView)
    ensures
        list.load_todos(None).todos.len() == 0,
        list.load_todos(None).next_id == 0,
        list.load_todos(None).wf(),
{
}

/// Whatever is read, the list that results is in order: it holds the tasks
/// read, or none, and the id to go on with is the least one above them.
pub proof fn lemma_load_todos(list: TodoAppView, decoded: Option<Seq<TodoView>>)
    ensures
        ({
            let after = list.load_todos(decoded);
            &&& after.wf()
            &&& after.next_id == next_free_id(after.todos)
            &&& after.todos == match decoded {
                Some(todos) if loadable(todos) => todos,
                _ => Seq::empty(),
            }
            &&& after.current_date == list.current_date
        }),
{
    let after = list.load_todos(decoded);
    lemma_next_free_id(after.todos);
}

/// On a new date the list lets go of its tasks and of the typed text, asks
/// for the file of the new date and for nothing to be written; what is then
/// read decides the tasks and the id to go on with.
pub proof fn lemma_new_day_then_load(
    list: TodoAppView,
    now: Timestamp,
    decoded: Option<Seq<TodoView>>,
)
    requires
        now.date != list.current_date,
    ensures
        ({
            let (rolled, effect) = list.step(Message::NewDay, now);
            let after = rolled.load_todos(decoded);
            &&& effect == Effect::Load
            &&& rolled.todos.len() == 0
            &&& rolled.next_id == 0
            &&& rolled.todo_input.len() == 0
            &&& rolled.time_input.len() == 0
            &&& rolled.current_date == now.date
            &&& after == TodoAppView::fresh(now.date).load_todos(decoded).with_priority(
                list.selected_priority,
            )
            &&& after.wf()
        }),
{
    let rolled = list.new_day(now.date);
    lemma_load_todos(rolled, decoded);
}

/// On the current date the message of a new day changes nothing and asks
/// for nothing.
pub proof fn lemma_same_day(list: TodoAppView, now: Timestamp)
    requires
        now.date == list.current_date,
    ensures
        list.step(Message::NewDay, now) == (list, Effect::Nothing),
{
}

/// Every message leaves the list in order: no id twice, and the next id
/// above all of them.
pub proof fn lemma_step_keeps_wf(list: TodoAppView, message: Message, now: Timestamp)
    requires
        list.wf(),
        message is AddTodo ==> list.next_id < usize::MAX,
    ensures
        list.step(message, now).0.wf(),
{
    match message {
        Message::ToggleTodo(id) => {
            assert(distinct_below(list.todos.map_values(toggle_if(id)), list.next_id as int));
        },
        Message::DeleteTodo(id) => {
            lemma_filter_distinct_below(list.todos, other_than(id), list.next_id as int);
        },
        Message::ClearCompleted => {
            lemma_filter_distinct_below(list.todos, still_open(), list.next_id as int);
        },
        _ => {},
    }
}

/// The criteria of the display, from the weightiest down: an open task sorts
/// before a completed one; of two open tasks an overdue one before one that
/// is not; then a task of higher priority before one of lower; then a task
/// with a due time before one without, and an earlier due time before a
/// later one.
pub proof fn lemma_sort_criteria(a: TodoView, b: TodoView, now: TimeOfDay)
    ensures
        !a.completed && b.completed ==> a.sorts_before(b, now),
        a.completed == b.completed && a.is_overdue_at(now) && !b.is_overdue_at(now)
            ==> a.sorts_before(b, now),
        a.completed == b.completed && a.is_overdue_at(now) == b.is_overdue_at(now)
            && a.priority.rank() < b.priority.rank() ==> a.sorts_before(b, now),
        a.completed == b.completed && a.is_overdue_at(now) == b.is_overdue_at(now) && a.priority
            == b.priority ==> (a.sorts_before(b, now) <==> match (a.due_time, b.due_time) {
            (Some(mine), Some(theirs)) => theirs.later_than(mine),
            (Some(_), None) => true,
            _ => false,
        }),
        a.completed ==> !a.is_overdue_at(now),
        a.due_time is None ==> !a.is_overdue_at(now),
{
}

/// Sorting before is a strict order in which being level is transitive: no
/// task sorts before itself, none both before and after another, and a task
/// that sorts before another sorts before, or is level with, no third task
/// that the other does not sort after.
pub proof fn lemma_sorts_before_is_strict_weak(
    a: TodoView,
    b: TodoView,
    c: TodoView,
    now: TimeOfDay,
)
    ensures
        !a.sorts_before(a, now),
        a.sorts_before(b, now) ==> !b.sorts_before(a, now),
        a.sorts_before(b, now) && b.sorts_before(c, now) ==> a.sorts_before(c, now),
        !a.sorts_before(b, now) && !b.sorts_before(c, now) ==> !a.sorts_before(c, now),
{
}

/// On the display no completed task stands before an open one, and among
/// the open tasks none that is not overdue stands before an overdue one.
pub proof fn lemma_display_order_groups(
    todos: Seq<TodoView>,
    now: TimeOfDay,
    order: Seq<usize>,
    k: int,
    l: int,
)
    requires
        is_display_order(todos, now, order),
        0 <= k < l < order.len(),
    ensures
        todos[order[k] as int].completed ==> todos[order[l] as int].completed,
        todos[order[l] as int].is_overdue_at(now) ==> todos[order[k] as int].is_overdue_at(now),
{
    assert(shown_before(todos, now, order[k] as int, order[l] as int));
}

/// Each place is shown before the places that follow it.
spec fn in_shown_order(todos: Seq<TodoView>, now: TimeOfDay, order: Seq<usize>) -> bool {
    forall|k: int, l: int|
        0 <= k < l < order.len() ==> shown_before(
            todos,
            now,
            #[trigger] order[k] as int,
            #[trigger] order[l] as int,
        )
}

/// Two sequences of places that hold the same places, each in shown order,
/// are one sequence.
proof fn lemma_shown_order_unique(
    todos: Seq<TodoView>,
    now: TimeOfDay,
    a: Seq<usize>,
    b: Seq<usize>,
)
    requires
        in_shown_order(todos, now, a),
        in_shown_order(todos, now, b),
        forall|place: usize| a.contains(place) <==> b.contains(place),
    ensures
        a == b,
    decreases a.len(),
{
    if a.len() == 0 {
        if b.len() > 0 {
            assert(b.contains(b[0]));
        }
        assert(a =~= b);
    } else {
        assert(a.contains(a[0]));
        assert(b.contains(a[0]));
        let p = choose|p: int| 0 <= p < b.len() && b[p] == a[0];
        assert(b.contains(b[0]));
        assert(a.contains(b[0]));
        let q = choose|q: int| 0 <= q < a.len() && a[q] == b[0];
        lemma_shown_before_total(todos, now, a[0] as int, b[0] as int);
        if p > 0 && q > 0 {
            assert(shown_before(todos, now, b[0] as int, b[p] as int));
            assert(shown_before(todos, now, a[0] as int, a[q] as int));
        }
        assert(a[0] == b[0]);
        let a_rest = a.drop_first();
        let b_rest = b.drop_first();
        assert forall|place: usize| a_rest.contains(place) <==> b_rest.contains(place) by {
            lemma_shown_before_total(todos, now, place as int, a[0] as int);
            if a_rest.contains(place) {
                let k = choose|k: int| 0 <= k < a_rest.len() && a_rest[k] == place;
                assert(a[k + 1] == place);
                assert(shown_before(todos, now, a[0] as int, a[k + 1] as int));
                assert(a.contains(place));
                let r = choose|r: int| 0 <= r < b.len() && b[r] == place;
                assert(b_rest[r - 1] == place);
            }
            if b_rest.contains(place) {
                let k = choose|k: int| 0 <= k < b_rest.len() && b_rest[k] == place;
                assert(b[k + 1] == place);
                assert(shown_before(todos, now, b[0] as int, b[k + 1] as int));
                assert(b.contains(place));
                let r = choose|r: int| 0 <= r < a.len() && a[r] == place;
                assert(a_rest[r - 1] == place);
            }
        }
        assert forall|k: int, l: int| 0 <= k < l < a_rest.len() implies shown_before(
            todos,
            now,
            #[trigger] a_rest[k] as int,
            #[trigger] a_rest[l] as int,
        ) by {
            assert(shown_before(todos, now, a[k + 1] as int, a[l + 1] as int));
        }
        assert forall|k: int, l: int| 0 <= k < l < b_rest.len() implies shown_before(
            todos,
            now,
            #[trigger] b_rest[k] as int,
            #[trigger] b_rest[l] as int,
        ) by {
            assert(shown_before(todos, now, b[k + 1] as int, b[l + 1] as int));
        }
        lemma_shown_order_unique(todos, now, a_rest, b_rest);
        assert(a =~= seq![a[0]] + a_rest);
        assert(b =~= seq![b[0]] + b_rest);
    }
}

/// At one moment of the day the tasks have one display order and no other.
pub proof fn lemma_display_order_unique(
    todos: Seq<TodoView>,
    now: TimeOfDay,
    a: Seq<usize>,
    b: Seq<usize>,
)
    requires
        is_display_order(todos, now, a),
        is_display_order(todos, now, b),
    ensures
        a == b,
{
    assert forall|place: usize| a.contains(place) <==> b.contains(place) by {
        if a.contains(place) {
            let k = choose|k: int| 0 <= k < a.len() && a[k] == place;
            assert(0 <= a[k] < todos.len());
        }
        if b.contains(place) {
            let k = choose|k: int| 0 <= k < b.len() && b[k] == place;
            assert(0 <= b[k] < todos.len());
        }
    }
    lemma_shown_order_unique(todos, now, a, b);
}

/// No place occurs twice in a display order.
pub proof fn lemma_display_order_no_repeats(
    todos: Seq<TodoView>,
    now: TimeOfDay,
    order: Seq<usize>,
)
    requires
        is_display_order(todos, now, order),
    ensures
        forall|k: int, l: int|
            0 <= k < l < order.len() ==> #[trigger] order[k] != #[trigger] order[l],
{
    assert forall|k: int, l: int| 0 <= k < l < order.len() implies #[trigger] order[k]
        != #[trigger] order[l] by {
        lemma_shown_before_total(todos, now, order[k] as int, order[l] as int);
    }
}

} // verus!
