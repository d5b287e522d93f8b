//! The order in which the tasks are shown.
//!
//! Open tasks come before completed ones, overdue tasks before the others,
//! an urgent task before a less urgent one, a task with a due time before
//! one without, and an earlier due time before a later one. Tasks that all
//! this leaves level stay in the order in which they were added.

use crate::clock::{local_now, TimeOfDay};
use crate::models::{Todo, TodoView};
use vstd::prelude::*;

verus! {

impl TodoView {
    /// The task is open and `now` is past its due time.
    pub open spec fn is_overdue_at(self, now: TimeOfDay) -> bool {
        match self.due_time {
            Some(due) => !self.completed && now.later_than(due),
            None => false,
        }
    }

    /// At the moment `now` of the day, `self` belongs strictly before
    /// `other` on the display.
    pub open spec fn sorts_before(self, other: TodoView, now: TimeOfDay) -> bool {
        if self.completed != other.completed {
            !self.completed
        } else if self.is_overdue_at(now) != other.is_overdue_at(now) {
            self.is_overdue_at(now)
        } else if self.priority.rank() != other.priority.rank() {
            self.priority.rank() < other.priority.rank()
        } else {
            match (self.due_time, other.due_time) {
                (Some(mine), Some(theirs)) => theirs.later_than(mine),
                (Some(_), None) => true,
                _ => false,
            }
        }
    }
}

/// The task at place `a` of the list is shown before the one at place `b`:
/// it sorts before it, or the two are level and it was added first.
pub open spec fn shown_before(todos: Seq<TodoView>, now: TimeOfDay, a: int, b: int) -> bool {
    todos[a].sorts_before(todos[b], now) || (!todos[b].sorts_before(todos[a], now) && a < b)
}

/// `order` lists the places of all the tasks, each before the ones that are
/// shown after it.
pub open spec fn is_display_order(todos: Seq<TodoView>, now: TimeOfDay, order: Seq<usize>) -> bool {
    &&& order.len() == todos.len()
    &&& forall|k: int| 0 <= k < order.len() ==> 0 <= #[trigger] order[k] < todos.len()
    &&& forall|place: usize| 0 <= place < todos.len() ==> #[trigger] order.contains(place)
    &&& forall|k: int, l: int|
        0 <= k < l < order.len() ==> shown_before(
            todos,
            now,
            #[trigger] order[k] as int,
            #[trigger] order[l] as int,
        )
}

/// Of two different places exactly one is shown before the other, and none
/// before itself.
pub proof fn lemma_shown_before_total(todos: Seq<TodoView>, now: TimeOfDay, a: int, b: int)
    ensures
        !shown_before(todos, now, a, a),
        a != b ==> (shown_before(todos, now, a, b) <==> !shown_before(todos, now, b, a)),
{
}

/// What is shown before a place is shown before everything after it.
pub proof fn lemma_shown_before_transitive(
    todos: Seq<TodoView>,
    now: TimeOfDay,
    a: int,
    b: int,
    c: int,
)
    requires
        shown_before(todos, now, a, b),
        shown_before(todos, now, b, c),
    ensures
        shown_before(todos, now, a, c),
{
}

impl Todo {
    /// Whether the task is open and `now` is past its due time.
    pub fn is_overdue_at(&self, now: &TimeOfDay) -> (overdue: bool)
        ensures
            overdue == self@.is_overdue_at(*now),
    {
        match &self.due_time {
            Some(due) => !self.completed && now.is_after(due),
            None => false,
        }
    }

    /// Whether the task is open and its due time has passed on the local
    /// clock.
    pub fn is_overdue(&self) -> (overdue: bool)
        ensures
            exists|now: TimeOfDay| now.wf() && overdue == #[trigger] self@.is_overdue_at(now),
            overdue ==> !self.completed && self.due_time is Some,
    {
        let now = local_now();
        self.is_overdue_at(&now.time)
    }

    /// Whether, at the moment `now` of the day, the task belongs strictly
    /// before `other` on the display.
    pub fn sorts_before(&self, other: &Todo, now: &TimeOfDay) -> (before: bool)
        ensures
            before == self@.sorts_before(other@, *now),
    {
        if self.completed != other.completed {
            return !self.completed;
        }
        let overdue = self.is_overdue_at(now);
        if overdue != other.is_overdue_at(now) {
            return overdue;
        }
        let rank = self.priority.rank();
        let other_rank = other.priority.rank();
        if rank != other_rank {
            return rank < other_rank;
        }
        match (&self.due_time, &other.due_time) {
            (Some(mine), Some(theirs)) => theirs.is_after(mine),
            (Some(_), None) => true,
            _ => false,
        }
    }
}

/// The places of the tasks in the order in which they are shown at the
/// moment `now` of the day.
pub fn display_order_at(todos: &Vec<Todo>, now: &TimeOfDay) -> (order: Vec<usize>)
    ensures
        is_display_order(todos.deep_view(), *now, order@),
{
    let ghost views = todos.deep_view();
    let mut order: Vec<usize> = Vec::new();
    let mut i: usize = 0;
    while i < todos.len()
        invariant
            0 <= i <= todos.len(),
            views == todos.deep_view(),
            is_display_order(views.take(i as int), *now, order@),
        decreases todos.len() - i,
    {
        // Every place in `order` is below `i`, so the task at `i` goes
        // behind all that do not sort after it.
        let mut j: usize = order.len();
        while j > 0 && todos[i].sorts_before(&todos[order[j - 1]], now)
            invariant
                0 <= j <= order.len() == i < todos.len(),
                views == todos.deep_view(),
                forall|k: int| 0 <= k < order.len() ==> 0 <= #[trigger] order[k] < i,
                forall|l: int|
                    j <= l < order.len() ==> views[i as int].sorts_before(
                        views[#[trigger] order[l] as int],
                        *now,
                    ),
            decreases j,
        {
            j = j - 1;
        }
        let ghost before = order@;
        order.insert(j, i);
        proof {
            let shorter = views.take(i as int);
            let longer = views.take(i + 1);
            let after = order@;
            assert forall|k: int, l: int| 0 <= k < l < after.len() implies shown_before(
                longer,
                *now,
                #[trigger] after[k] as int,
                #[trigger] after[l] as int,
            ) by {
                if l < j {
                    assert(shown_before(shorter, *now, before[k] as int, before[l] as int));
                } else if l == j {
                    assert(shown_before(shorter, *now, before[k] as int, before[j - 1] as int)
                        || k == j - 1);
                    assert(!views[i as int].sorts_before(views[before[j - 1] as int], *now));
                } else if k < j {
                    assert(shown_before(shorter, *now, before[k] as int, before[l - 1] as int));
                } else if k == j {
                    assert(views[i as int].sorts_before(views[before[l - 1] as int], *now));
                } else {
                    assert(shown_before(
                        shorter,
                        *now,
                        before[k - 1] as int,
                        before[l - 1] as int,
                    ));
                }
            }
            assert forall|place: usize| 0 <= place < longer.len() implies #[trigger] after.contains(
                place,
            ) by {
                if place == i {
                    assert(after[j as int] == place);
                } else {
                    assert(before.contains(place));
                    let k = choose|k: int| 0 <= k < before.len() && before[k] == place;
                    if k < j {
                        assert(after[k] == place);
                    } else {
                        assert(after[k + 1] == place);
                    }
                }
            }
        }
        i = i + 1;
    }
    assert(views.take(todos.len() as int) =~= views);
    order
}

} // verus!
