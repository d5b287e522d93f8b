//! The task list of the current day and the transitions that messages cause.

use crate::clock::{local_now, parse_hour_minute, parsed_hour_minute, Date, TimeOfDay, Timestamp};
use crate::display::{display_order_at, is_display_order};
use crate::models::{Effect, Message, Priority, Todo, TodoApp, TodoAppView, TodoView};
use crate::persist::{data_file_name, file_name_of};
use crate::text::{trim, trimmed};
use vstd::prelude::*;

verus! {

impl View for TodoApp {
    type V = TodoAppView;

    closed spec fn view(&self) -> TodoAppView {
        TodoAppView {
            todos: self.todos.deep_view(),
            todo_input: self.todo_input@,
            time_input: self.time_input@,
            selected_priority: self.selected_priority,
            next_id: self.next_id,
            current_date: self.current_date,
        }
    }
}

impl TodoView {
    /// The task with its completion flag flipped.
    pub open spec fn toggled(self) -> TodoView {
        TodoView { completed: !self.completed, ..self }
    }
}

/// No two of the tasks share an id, and every id is below the bound.
pub open spec fn distinct_below(todos: Seq<TodoView>, bound: int) -> bool {
    &&& forall|i: int| 0 <= i < todos.len() ==> (#[trigger] todos[i]).id < bound
    &&& forall|i: int, j: int|
        0 <= i < j < todos.len() ==> (#[trigger] todos[i]).id != (#[trigger] todos[j]).id
}

/// The tasks with another id than the given one.
pub open spec fn other_than(id: usize) -> spec_fn(TodoView) -> bool {
    |t: TodoView| t.id != id
}

/// The tasks that are not completed.
pub open spec fn still_open() -> spec_fn(TodoView) -> bool {
    |t: TodoView| !t.completed
}

/// The tasks that are completed.
pub open spec fn completed() -> spec_fn(TodoView) -> bool {
    |t: TodoView| t.completed
}

/// Flips the completion flag of the tasks with the given id.
pub open spec fn toggle_if(id: usize) -> spec_fn(TodoView) -> TodoView {
    |t: TodoView|
        if t.id == id {
            t.toggled()
        } else {
            t
        }
}

/// The least id that is above every id in use: 0 for no tasks.
pub open spec fn next_free_id(todos: Seq<TodoView>) -> int
    decreases todos.len(),
{
    if todos.len() == 0 {
        0
    } else {
        let rest = next_free_id(todos.drop_last());
        if todos.last().id + 1 > rest {
            todos.last().id + 1
        } else {
            rest
        }
    }
}

/// Tasks read from a file can be taken over: no id occurs twice, and there
/// is an id left above them.
pub open spec fn loadable(todos: Seq<TodoView>) -> bool {
    distinct_below(todos, usize::MAX as int)
}

/// The due time that the typed text stands for: none where the text is
/// empty once trimmed, else what it parses to as `hour:minute`.
pub open spec fn entered_due_time(time_input: Seq<char>) -> Option<TimeOfDay> {
    let text = trimmed(time_input);
    if text.len() == 0 {
        None
    } else {
        parsed_hour_minute(text)
    }
}

impl TodoAppView {
    /// No two tasks share an id, and `next_id` is above every id in use.
    pub open spec fn wf(self) -> bool {
        distinct_below(self.todos, self.next_id as int)
    }

    /// Some task has the id.
    pub open spec fn has_id(self, id: usize) -> bool {
        exists|i: int| 0 <= i < self.todos.len() && (#[trigger] self.todos[i]).id == id
    }

    /// The list of a day on which nothing has happened yet.
    pub open spec fn fresh(current_date: Date) -> TodoAppView {
        TodoAppView {
            todos: Seq::empty(),
            todo_input: Seq::empty(),
            time_input: Seq::empty(),
            selected_priority: Priority::Medium,
            next_id: 0,
            current_date,
        }
    }

    /// The list with another priority chosen for the next task.
    pub open spec fn with_priority(self, priority: Priority) -> TodoAppView {
        TodoAppView { selected_priority: priority, ..self }
    }

    /// The list after the typed text is added as a task with the given due
    /// time and creation stamp. Text that is empty once trimmed adds nothing.
    pub open spec fn add_todo(self, due_time: Option<TimeOfDay>, created_at: Timestamp)
        -> TodoAppView {
        let text = trimmed(self.todo_input);
        if text.len() == 0 {
            self
        } else {
            TodoAppView {
                todos: self.todos.push(
                    TodoView {
                        id: self.next_id,
                        text,
                        completed: false,
                        due_time,
                        priority: self.selected_priority,
                        created_at,
                    },
                ),
                todo_input: Seq::empty(),
                time_input: Seq::empty(),
                selected_priority: Priority::Medium,
                next_id: (self.next_id + 1) as usize,
                current_date: self.current_date,
            }
        }
    }

    /// The list after the task with the id, if there is one, changes between
    /// open and completed.
    pub open spec fn toggle_todo(self, id: usize) -> TodoAppView {
        TodoAppView { todos: self.todos.map_values(toggle_if(id)), ..self }
    }

    /// The list without the task with the id.
    pub open spec fn delete_todo(self, id: usize) -> TodoAppView {
        TodoAppView { todos: self.todos.filter(other_than(id)), ..self }
    }

    /// The list without the completed tasks.
    pub open spec fn clear_completed(self) -> TodoAppView {
        TodoAppView { todos: self.todos.filter(still_open()), ..self }
    }

    /// The list once the calendar shows `today`: unchanged on the current
    /// date; on another one the tasks and the typed text are gone, ids start
    /// again at 0, and the current date is `today`.
    pub open spec fn new_day(self, today: Date) -> TodoAppView {
        if today == self.current_date {
            self
        } else {
            TodoAppView {
                todos: Seq::empty(),
                todo_input: Seq::empty(),
                time_input: Seq::empty(),
                next_id: 0,
                current_date: today,
                ..self
            }
        }
    }

    /// The list once the file of the current date is read. `decoded` is what
    /// the file holds, or `None` where there is no file or it cannot be
    /// understood. Tasks that cannot be taken over count as no tasks.
    pub open spec fn load_todos(self, decoded: Option<Seq<TodoView>>) -> TodoAppView {
        match decoded {
            Some(todos) if loadable(todos) => TodoAppView {
                todos,
                next_id: next_free_id(todos) as usize,
                ..self
            },
            _ => TodoAppView { todos: Seq::empty(), next_id: 0, ..self },
        }
    }

    /// The list and what is to be done with the day's file once a message is
    /// handled at the moment `now`.
    pub open spec fn step(self, message: Message, now: Timestamp) -> (TodoAppView, Effect) {
        match message {
            Message::AddTodo => (
                self.add_todo(entered_due_time(self.time_input), now),
                if trimmed(self.todo_input).len() > 0 {
                    Effect::Save
                } else {
                    Effect::Nothing
                },
            ),
            Message::TodoInputChanged(value) => (
                TodoAppView { todo_input: value@, ..self },
                Effect::Nothing,
            ),
            Message::TimeInputChanged(value) => (
                TodoAppView { time_input: value@, ..self },
                Effect::Nothing,
            ),
            Message::PrioritySelected(priority) => (self.with_priority(priority), Effect::Nothing),
            Message::ToggleTodo(id) => (
                self.toggle_todo(id),
                if self.has_id(id) {
                    Effect::Save
                } else {
                    Effect::Nothing
                },
            ),
            Message::DeleteTodo(id) => (self.delete_todo(id), Effect::Save),
            Message::ClearCompleted => (self.clear_completed(), Effect::Save),
            Message::NewDay => (
                self.new_day(now.date),
                if now.date == self.current_date {
                    Effect::Nothing
                } else {
                    Effect::Load
                },
            ),
        }
    }
}

/// Filtering one task more either appends it or changes nothing.
proof fn lemma_filter_step(todos: Seq<TodoView>, keep: spec_fn(TodoView) -> bool, n: int)
    requires
        0 <= n < todos.len(),
    ensures
        todos.take(n + 1).filter(keep) == if keep(todos[n]) {
            todos.take(n).filter(keep).push(todos[n])
        } else {
            todos.take(n).filter(keep)
        },
{
    reveal(Seq::filter);
    assert(todos.take(n + 1).drop_last() =~= todos.take(n));
}

/// Every task that a filter keeps was there before, and what it keeps of
/// tasks with distinct ids below a bound are such tasks again.
pub proof fn lemma_filter_distinct_below(
    todos: Seq<TodoView>,
    keep: spec_fn(TodoView) -> bool,
    bound: int,
)
    requires
        distinct_below(todos, bound),
    ensures
        distinct_below(todos.filter(keep), bound),
        forall|j: int|
            0 <= j < todos.filter(keep).len() ==> todos.contains(
                #[trigger] todos.filter(keep)[j],
            ),
    decreases todos.len(),
{
    reveal(Seq::filter);
    if todos.len() > 0 {
        let rest = todos.drop_last();
        lemma_filter_distinct_below(rest, keep, bound);
        let kept = rest.filter(keep);
        assert forall|j: int| 0 <= j < kept.len() implies todos.contains(#[trigger] kept[j])
            && kept[j].id != todos.last().id by {
            assert(rest.contains(kept[j]));
            let k = choose|k: int| 0 <= k < rest.len() && rest[k] == kept[j];
            assert(todos[k] == kept[j]);
        }
        if keep(todos.last()) {
            assert(todos[todos.len() - 1] == todos.last());
        }
    }
}

/// What `next_free_id` is: above every id in use, and no larger than that
/// takes.
pub proof fn lemma_next_free_id(todos: Seq<TodoView>)
    ensures
        0 <= next_free_id(todos),
        forall|i: int| 0 <= i < todos.len() ==> (#[trigger] todos[i]).id < next_free_id(todos),
        todos.len() == 0 ==> next_free_id(todos) == 0,
        todos.len() > 0 ==> exists|i: int|
            0 <= i < todos.len() && (#[trigger] todos[i]).id + 1 == next_free_id(todos),
    decreases todos.len(),
{
    if todos.len() > 0 {
        let rest = todos.drop_last();
        lemma_next_free_id(rest);
        assert forall|i: int| 0 <= i < todos.len() implies (#[trigger] todos[i]).id
            < next_free_id(todos) by {
            if i < rest.len() {
                assert(rest[i] == todos[i]);
            }
        }
        if todos.last().id + 1 > next_free_id(rest) {
            assert(todos[todos.len() - 1].id + 1 == next_free_id(todos));
        } else {
            let i = choose|i: int|
                0 <= i < rest.len() && (#[trigger] rest[i]).id + 1 == next_free_id(rest);
            assert(todos[i].id + 1 == next_free_id(todos));
        }
    }
}

/// The id to go on with after the given tasks, if they can be taken over.
fn next_id_after(todos: &Vec<Todo>) -> (next: Option<usize>)
    ensures
        next == if loadable(todos.deep_view()) {
            Some(next_free_id(todos.deep_view()) as usize)
        } else {
            None::<usize>
        },
        next matches Some(n) ==> n == next_free_id(todos.deep_view()),
{
    let ghost views = todos.deep_view();
    let mut next: usize = 0;
    let mut i: usize = 0;
    while i < todos.len()
        invariant
            0 <= i <= todos.len(),
            views == todos.deep_view(),
            distinct_below(views.take(i as int), usize::MAX as int),
            next == next_free_id(views.take(i as int)),
        decreases todos.len() - i,
    {
        let id = todos[i].id;
        if id == usize::MAX {
            assert(views[i as int].id == usize::MAX);
            return None;
        }
        let mut j: usize = 0;
        while j < i
            invariant
                0 <= j <= i < todos.len(),
                views == todos.deep_view(),
                id == views[i as int].id,
                forall|k: int| 0 <= k < j ==> (#[trigger] views[k]).id != id,
            decreases i - j,
        {
            if todos[j].id == id {
                assert(views[j as int].id == views[i as int].id);
                return None;
            }
            j = j + 1;
        }
        proof {
            let grown = views.take(i + 1);
            assert(grown.drop_last() =~= views.take(i as int));
            assert(grown.last() == views[i as int]);
            assert forall|a: int, b: int| 0 <= a < b < grown.len() implies (#[trigger] grown[a]).id
                != (#[trigger] grown[b]).id by {
                if b < i {
                    assert(views.take(i as int)[a] == grown[a]);
                    assert(views.take(i as int)[b] == grown[b]);
                }
            }
            assert forall|a: int| 0 <= a < grown.len() implies (#[trigger] grown[a]).id
                < usize::MAX by {
                if a < i {
                    assert(views.take(i as int)[a] == grown[a]);
                }
            }
        }
        if id + 1 > next {
            next = id + 1;
        }
        i = i + 1;
    }
    assert(views.take(todos.len() as int) =~= views);
    Some(next)
}

/// The tasks with another id than the given one, in their order.
fn without_id(todos: Vec<Todo>, id: usize) -> (kept: Vec<Todo>)
    ensures
        kept.deep_view() == todos.deep_view().filter(other_than(id)),
{
    let ghost before = todos.deep_view();
    let ghost elems = todos@;
    let mut kept: Vec<Todo> = Vec::new();
    assert(before.take(0).filter(other_than(id)) =~= Seq::empty()) by {
        reveal(Seq::filter);
    }
    for todo in it: todos.into_iter()
        invariant
            it.seq() == elems,
            before.len() == elems.len(),
            forall|j: int| 0 <= j < elems.len() ==> (#[trigger] elems[j])@ == before[j],
            kept.deep_view() == before.take(it.index() as int).filter(other_than(id)),
    {
        proof {
            lemma_filter_step(before, other_than(id), it.index() as int);
        }
        let ghost so_far = kept.deep_view();
        if todo.id != id {
            kept.push(todo);
            assert(kept.deep_view() =~= so_far.push(todo@));
        }
    }
    assert(before.take(before.len() as int) =~= before);
    kept
}

/// The tasks that are not completed, in their order.
fn without_completed(todos: Vec<Todo>) -> (kept: Vec<Todo>)
    ensures
        kept.deep_view() == todos.deep_view().filter(still_open()),
{
    let ghost before = todos.deep_view();
    let ghost elems = todos@;
    let mut kept: Vec<Todo> = Vec::new();
    assert(before.take(0).filter(still_open()) =~= Seq::empty()) by {
        reveal(Seq::filter);
    }
    for todo in it: todos.into_iter()
        invariant
            it.seq() == elems,
            before.len() == elems.len(),
            forall|j: int| 0 <= j < elems.len() ==> (#[trigger] elems[j])@ == before[j],
            kept.deep_view() == before.take(it.index() as int).filter(still_open()),
    {
        proof {
            lemma_filter_step(before, still_open(), it.index() as int);
        }
        let ghost so_far = kept.deep_view();
        if !todo.completed {
            kept.push(todo);
            assert(kept.deep_view() =~= so_far.push(todo@));
        }
    }
    assert(before.take(before.len() as int) =~= before);
    kept
}

impl TodoApp {
    /// What every list upholds: its ids are distinct and below `next_id`.
    #[verifier::type_invariant]
    spec fn inv(&self) -> bool {
        self@.wf()
    }

    /// An empty list for the given day.
    pub fn new(current_date: Date) -> (app: TodoApp)
        ensures
            app@ == TodoAppView::fresh(current_date),
            app@.wf(),
    {
        let app = TodoApp {
            todos: Vec::new(),
            todo_input: String::new(),
            time_input: String::new(),
            selected_priority: Priority::Medium,
            next_id: 0,
            current_date,
        };
        assert(app@.todos =~= Seq::empty());
        app
    }

    /// An empty list for the day that the local clock shows.
    pub fn today() -> (app: TodoApp)
        ensures
            exists|date: Date| date.wf() && app@ == #[trigger] TodoAppView::fresh(date),
            app@.wf(),
    {
        let now = local_now();
        let app = TodoApp::new(now.date);
        assert(now.date.wf() && app@ == TodoAppView::fresh(now.date));
        app
    }

    /// The tasks in the order in which they were added.
    pub fn todos(&self) -> (todos: &Vec<Todo>)
        ensures
            todos.deep_view() == self@.todos,
            self@.wf(),
    {
        proof {
            use_type_invariant(self);
        }
        &self.todos
    }

    /// The date whose tasks the list holds.
    pub fn current_date(&self) -> (date: Date)
        ensures
            date == self@.current_date,
    {
        self.current_date
    }

    /// The id that the next task gets.
    pub fn next_id(&self) -> (id: usize)
        ensures
            id == self@.next_id,
    {
        self.next_id
    }

    /// The text of the task that is being typed.
    pub fn todo_input(&self) -> (text: &str)
        ensures
            text@ == self@.todo_input,
    {
        self.todo_input.as_str()
    }

    /// The due time that is being typed.
    pub fn time_input(&self) -> (text: &str)
        ensures
            text@ == self@.time_input,
    {
        self.time_input.as_str()
    }

    /// The priority that the next task gets.
    pub fn selected_priority(&self) -> (priority: Priority)
        ensures
            priority == self@.selected_priority,
    {
        self.selected_priority
    }

    /// How many of the tasks are completed.
    pub fn completed_count(&self) -> (count: usize)
        ensures
            count == self@.todos.filter(completed()).len(),
    {
        let ghost views = self.todos.deep_view();
        let mut count: usize = 0;
        let mut i: usize = 0;
        assert(views.take(0).filter(completed()) =~= Seq::empty()) by {
            reveal(Seq::filter);
        }
        while i < self.todos.len()
            invariant
                0 <= i <= self.todos.len(),
                views == self.todos.deep_view(),
                count == views.take(i as int).filter(completed()).len(),
                count <= i,
            decreases self.todos.len() - i,
        {
            proof {
                lemma_filter_step(views, completed(), i as int);
            }
            if self.todos[i].completed {
                count = count + 1;
            }
            i = i + 1;
        }
        assert(views.take(views.len() as int) =~= views);
        count
    }

    /// The name of the file that holds the tasks of the current date.
    pub fn data_file_name(&self) -> (name: String)
        ensures
            name@ == file_name_of(self@.current_date),
    {
        data_file_name(&self.current_date)
    }

    /// The places of the tasks in the order in which they are shown at the
    /// moment `now` of the day.
    pub fn display_order_at(&self, now: &TimeOfDay) -> (order: Vec<usize>)
        ensures
            is_display_order(self@.todos, *now, order@),
    {
        display_order_at(&self.todos, now)
    }

    /// The places of the tasks in the order in which they are shown at the
    /// time that the local clock shows.
    pub fn display_order(&self) -> (order: Vec<usize>)
        ensures
            exists|now: TimeOfDay|
                now.wf() && #[trigger] is_display_order(self@.todos, now, order@),
    {
        let now = local_now();
        let order = display_order_at(&self.todos, &now.time);
        assert(now.time.wf() && is_display_order(self@.todos, now.time, order@));
        order
    }

    /// Adds the typed text as a task and clears the input. Text that is
    /// empty once trimmed adds nothing and leaves the input as it is.
    pub fn add_todo(&mut self, due_time: Option<TimeOfDay>, created_at: Timestamp) -> (added: bool)
        requires
            old(self)@.next_id < usize::MAX,
        ensures
            final(self)@ == old(self)@.add_todo(due_time, created_at),
            added == (trimmed(old(self)@.todo_input).len() > 0),
            final(self)@.wf(),
    {
        proof {
            use_type_invariant(&*self);
        }
        let text = trim(self.todo_input.as_str());
        if text.is_empty() {
            return false;
        }
        let todo = Todo {
            id: self.next_id,
            text: text.to_owned(),
            completed: false,
            due_time,
            priority: self.selected_priority,
            created_at,
        };
        let ghost before = self.todos.deep_view();
        self.next_id = self.next_id + 1;
        let mut todos = Vec::new();
        std::mem::swap(&mut todos, &mut self.todos);
        todos.push(todo);
        assert(todos.deep_view() =~= before.push(todo@));
        self.todos = todos;
        self.todo_input = String::new();
        self.time_input = String::new();
        self.selected_priority = Priority::Medium;
        true
    }

    /// Changes the task with the id between open and completed, and says
    /// whether there is such a task.
    pub fn toggle_todo(&mut self, id: usize) -> (found: bool)
        ensures
            final(self)@ == old(self)@.toggle_todo(id),
            found == old(self)@.has_id(id),
            final(self)@.wf(),
    {
        proof {
            use_type_invariant(&*self);
        }
        let ghost before = self.todos.deep_view();
        let mut todos = Vec::new();
        std::mem::swap(&mut todos, &mut self.todos);
        let mut i: usize = 0;
        while i < todos.len() && todos[i].id != id
            invariant
                0 <= i <= todos.len(),
                todos.deep_view() == before,
                forall|j: int| 0 <= j < i ==> (#[trigger] before[j]).id != id,
            decreases todos.len() - i,
        {
            i = i + 1;
        }
        let found = i < todos.len();
        if found {
            assert(before[i as int].id == id);
            todos[i].completed = !todos[i].completed;
        }
        assert(todos.deep_view() =~= before.map_values(toggle_if(id)));
        self.todos = todos;
        found
    }

    /// Removes the task with the id, if there is one.
    pub fn delete_todo(&mut self, id: usize)
        ensures
            final(self)@ == old(self)@.delete_todo(id),
            final(self)@.wf(),
    {
        proof {
            use_type_invariant(&*self);
            lemma_filter_distinct_below(self@.todos, other_than(id), self@.next_id as int);
        }
        let mut todos = Vec::new();
        std::mem::swap(&mut todos, &mut self.todos);
        self.todos = without_id(todos, id);
    }

    /// Removes the completed tasks.
    pub fn clear_completed(&mut self)
        ensures
            final(self)@ == old(self)@.clear_completed(),
            final(self)@.wf(),
    {
        proof {
            use_type_invariant(&*self);
            lemma_filter_distinct_below(self@.todos, still_open(), self@.next_id as int);
        }
        let mut todos = Vec::new();
        std::mem::swap(&mut todos, &mut self.todos);
        self.todos = without_completed(todos);
    }

    /// Goes over to `today` where that is another date than the current one,
    /// and says whether it is. The tasks of the day that ends are dropped
    /// from memory only.
    pub fn new_day(&mut self, today: Date) -> (changed: bool)
        ensures
            final(self)@ == old(self)@.new_day(today),
            changed == (today != old(self)@.current_date),
            final(self)@.wf(),
    {
        proof {
            use_type_invariant(&*self);
        }
        if today == self.current_date {
            return false;
        }
        self.todos = Vec::new();
        self.next_id = 0;
        self.todo_input = String::new();
        self.time_input = String::new();
        self.current_date = today;
        assert(self@.todos =~= Seq::empty());
        true
    }

    /// Takes over what the file of the current date holds: `decoded` is its
    /// tasks, or `None` where there is no file or it cannot be understood.
    /// Ids go on above the largest one read. Tasks that cannot be taken over
    /// (an id occurs twice, or no id is left above them) are treated like a
    /// file that cannot be understood: the list is then empty. Says whether
    /// tasks were taken over.
    pub fn load_todos(&mut self, decoded: Option<Vec<Todo>>) -> (loaded: bool)
        ensures
            final(self)@ == old(self)@.load_todos(decoded.deep_view()),
            loaded == (decoded matches Some(todos) && loadable(todos.deep_view())),
            final(self)@.wf(),
    {
        proof {
            use_type_invariant(&*self);
        }
        if let Some(todos) = decoded {
            if let Some(next_id) = next_id_after(&todos) {
                proof {
                    lemma_next_free_id(todos.deep_view());
                }
                self.todos = Vec::new();
                assert(self@.todos =~= Seq::empty());
                self.next_id = next_id;
                self.todos = todos;
                return true;
            }
        }
        self.todos = Vec::new();
        self.next_id = 0;
        assert(self@.todos =~= Seq::empty());
        false
    }

    /// Handles a message at the moment `now`, and says what is to be done
    /// with the day's file.
    pub fn update_at(&mut self, message: Message, now: Timestamp) -> (effect: Effect)
        requires
            message is AddTodo ==> old(self)@.next_id < usize::MAX,
        ensures
            (final(self)@, effect) == old(self)@.step(message, now),
            final(self)@.wf(),
    {
        proof {
            use_type_invariant(&*self);
        }
        match message {
            Message::AddTodo => {
                let typed = trim(self.time_input.as_str());
                let due_time = if typed.is_empty() {
                    None
                } else {
                    parse_hour_minute(typed)
                };
                if self.add_todo(due_time, now) {
                    Effect::Save
                } else {
                    Effect::Nothing
                }
            },
            Message::TodoInputChanged(value) => {
                self.todo_input = value;
                Effect::Nothing
            },
            Message::TimeInputChanged(value) => {
                self.time_input = value;
                Effect::Nothing
            },
            Message::PrioritySelected(priority) => {
                self.selected_priority = priority;
                Effect::Nothing
            },
            Message::ToggleTodo(id) => {
                if self.toggle_todo(id) {
                    Effect::Save
                } else {
                    Effect::Nothing
                }
            },
            Message::DeleteTodo(id) => {
                self.delete_todo(id);
                Effect::Save
            },
            Message::ClearCompleted => {
                self.clear_completed();
                Effect::Save
            },
            Message::NewDay => {
                if self.new_day(now.date) {
                    Effect::Load
                } else {
                    Effect::Nothing
                }
            },
        }
    }

    /// Handles a message at the moment that the local clock shows, and says
    /// what is to be done with the day's file.
    pub fn update(&mut self, message: Message) -> (effect: Effect)
        requires
            message is AddTodo ==> old(self)@.next_id < usize::MAX,
        ensures
            exists|now: Timestamp|
                now.wf() && (final(self)@, effect) == #[trigger] old(self)@.step(message, now),
            final(self)@.wf(),
    {
        let now = local_now();
        self.update_at(message, now)
    }
}

} // verus!
