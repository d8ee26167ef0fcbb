//! Lists of tasks and the tasks in them.
use crate::api::calendar;
use crate::api::teams;
use crate::json;
use crate::json::{Fields, FieldsV, Json, JsonV};
use crate::text;
use crate::web;
use vstd::prelude::*;

verus! {

/// A list of tasks as the service sends it.
pub struct TodoList {
    pub id: String,
    pub display_name: Option<String>,
    pub wellknown_list_name: Option<String>,
}

/// The model of [`TodoList`].
pub struct TodoListV {
    pub id: Seq<char>,
    pub display_name: Option<Seq<char>>,
    pub wellknown_list_name: Option<Seq<char>>,
}

impl View for TodoList {
    type V = TodoListV;

    open spec fn view(&self) -> TodoListV {
        TodoListV {
            id: self.id@,
            display_name: text::opt_text(self.display_name),
            wellknown_list_name: text::opt_text(self.wellknown_list_name),
        }
    }
}

/// A list of [`TodoList`] by their models.
pub open spec fn todo_list_views(v: Seq<TodoList>) -> Seq<TodoListV> {
    Seq::new(v.len(), |i: int| v[i]@)
}

/// How a JSON value reads as a [`TodoList`]; nothing where it does not.
pub open spec fn todo_list_of(v: JsonV) -> Option<TodoListV> {
    if !json::record_form(v, 3, 3) {
        None
    } else {
        match (
            json::str_of(json::member_of(v, "id"@, 0)),
            json::opt_text_member(json::member_of(v, "displayName"@, 1)),
            json::opt_text_member(json::member_of(v, "wellknownListName"@, 2)),
        ) {
            (Some(id), Some(display_name), Some(wellknown_list_name)) => Some(
                TodoListV { id, display_name, wellknown_list_name },
            ),
            _ => None,
        }
    }
}

/// Reads a [`TodoList`].
pub fn read_todo_list(v: &Json) -> (r: Option<TodoList>)
    ensures
        match r {
            Some(x) => todo_list_of(v@) == Some(x@),
            None => todo_list_of(v@) is None,
        },
{
    if !json::has_record_form(v, 3, 3) {
        return None;
    }
    let id = match json::as_text(json::member(v, "id", 0)) {
        Some(x) => x,
        None => {
            return None;
        },
    };
    let display_name = match json::read_opt_text(json::member(v, "displayName", 1)) {
        Some(x) => x,
        None => {
            return None;
        },
    };
    let wellknown_list_name = match json::read_opt_text(json::member(v, "wellknownListName", 2)) {
        Some(x) => x,
        None => {
            return None;
        },
    };
    Some(TodoList { id, display_name, wellknown_list_name })
}

/// How a list of JSON values reads as a list of [`TodoList`]: all of them or none.
pub open spec fn todo_list_list(a: Seq<JsonV>) -> Option<Seq<TodoListV>>
    decreases a.len(),
{
    if a.len() == 0 {
        Some(Seq::empty())
    } else {
        match (todo_list_list(a.drop_last()), todo_list_of(a.last())) {
            (Some(l), Some(x)) => Some(l.push(x)),
            _ => None,
        }
    }
}

proof fn lemma_todo_list_list_prefix(a: Seq<JsonV>, i: int)
    requires
        0 <= i <= a.len(),
        todo_list_list(a.take(i)) is None,
    ensures
        todo_list_list(a) is None,
    decreases a.len() - i,
{
    if i < a.len() {
        assert(a.take(i + 1).drop_last() =~= a.take(i));
        lemma_todo_list_list_prefix(a, i + 1);
    } else {
        assert(a.take(i) =~= a);
    }
}

fn read_todo_list_list(a: &Vec<Json>) -> (r: Option<Vec<TodoList>>)
    ensures
        match r {
            Some(l) => todo_list_list(json::items_view(a@)) == Some(todo_list_views(l@)),
            None => todo_list_list(json::items_view(a@)) is None,
        },
{
    let ghost all = json::items_view(a@);
    let mut out: Vec<TodoList> = Vec::new();
    let mut i: usize = 0;
    proof {
        assert(all.take(0) =~= Seq::empty());
        assert(todo_list_views(out@) =~= Seq::empty());
    }
    while i < a.len()
        invariant
            i <= a@.len(),
            all == json::items_view(a@),
            todo_list_list(all.take(i as int)) == Some(todo_list_views(out@)),
        decreases a@.len() - i,
    {
        proof {
            assert(all.take(i + 1).drop_last() =~= all.take(i as int));
            assert(all.take(i + 1).last() == a@[i as int]@);
        }
        match read_todo_list(&a[i]) {
            Some(x) => {
                let ghost before = out@;
                out.push(x);
                proof {
                    assert(todo_list_views(out@) =~= todo_list_views(before).push(x@));
                }
            },
            None => {
                proof {
                    lemma_todo_list_list_prefix(all, i + 1);
                }
                return None;
            },
        }
        i = i + 1;
    }
    proof {
        assert(all.take(i as int) =~= all);
    }
    Some(out)
}

/// How a required list member reads.
pub open spec fn todo_list_list_member(m: Option<JsonV>) -> Option<Seq<TodoListV>> {
    match m {
        Some(JsonV::Arr(a)) => todo_list_list(a),
        _ => None,
    }
}

fn read_todo_list_list_member(m: Option<&Json>) -> (r: Option<Vec<TodoList>>)
    ensures
        match r {
            Some(l) => todo_list_list_member(json::opt_json(m)) == Some(todo_list_views(l@)),
            None => todo_list_list_member(json::opt_json(m)) is None,
        },
{
    match m {
        Some(Json::Arr(a)) => {
            proof {
                json::lemma_arr_view(*a);
            }
            read_todo_list_list(a)
        },
        _ => None,
    }
}
/// The reply to a request for lists.
pub struct TodoListsResponse {
    pub value: Vec<TodoList>,
}

/// The model of [`TodoListsResponse`].
pub struct TodoListsResponseV {
    pub value: Seq<TodoListV>,
}

impl View for TodoListsResponse {
    type V = TodoListsResponseV;

    open spec fn view(&self) -> TodoListsResponseV {
        TodoListsResponseV {
            value: todo_list_views(self.value@),
        }
    }
}

/// How a JSON value reads as a [`TodoListsResponse`]; nothing where it does not.
pub open spec fn todo_lists_response_of(v: JsonV) -> Option<TodoListsResponseV> {
    if !json::record_form(v, 1, 1) {
        None
    } else {
        match todo_list_list_member(json::member_of(v, "value"@, 0)) {
            Some(value) => Some(TodoListsResponseV { value }),
            None => None,
        }
    }
}

/// Reads a [`TodoListsResponse`].
pub fn read_todo_lists_response(v: &Json) -> (r: Option<TodoListsResponse>)
    ensures
        match r {
            Some(x) => todo_lists_response_of(v@) == Some(x@),
            None => todo_lists_response_of(v@) is None,
        },
{
    if !json::has_record_form(v, 1, 1) {
        return None;
    }
    let value = match read_todo_list_list_member(json::member(v, "value", 0)) {
        Some(x) => x,
        None => {
            return None;
        },
    };
    Some(TodoListsResponse { value })
}
/// A time and its zone.
pub struct TodoTime {
    pub date_time: Option<String>,
    pub time_zone: Option<String>,
}

/// The model of [`TodoTime`].
pub struct TodoTimeV {
    pub date_time: Option<Seq<char>>,
    pub time_zone: Option<Seq<char>>,
}

impl View for TodoTime {
    type V = TodoTimeV;

    open spec fn view(&self) -> TodoTimeV {
        TodoTimeV {
            date_time: text::opt_text(self.date_time),
            time_zone: text::opt_text(self.time_zone),
        }
    }
}

/// An optional [`TodoTime`] by its model.
pub open spec fn opt_todo_time(o: Option<TodoTime>) -> Option<TodoTimeV> {
    match o {
        Some(x) => Some(x@),
        None => None,
    }
}

/// How a JSON value reads as a [`TodoTime`]; nothing where it does not.
pub open spec fn todo_time_of(v: JsonV) -> Option<TodoTimeV> {
    if !json::record_form(v, 2, 2) {
        None
    } else {
        match (
            json::opt_text_member(json::member_of(v, "dateTime"@, 0)),
            json::opt_text_member(json::member_of(v, "timeZone"@, 1)),
        ) {
            (Some(date_time), Some(time_zone)) => Some(TodoTimeV { date_time, time_zone }),
            _ => None,
        }
    }
}

/// Reads a [`TodoTime`].
pub fn read_todo_time(v: &Json) -> (r: Option<TodoTime>)
    ensures
        match r {
            Some(x) => todo_time_of(v@) == Some(x@),
            None => todo_time_of(v@) is None,
        },
{
    if !json::has_record_form(v, 2, 2) {
        return None;
    }
    let date_time = match json::read_opt_text(json::member(v, "dateTime", 0)) {
        Some(x) => x,
        None => {
            return None;
        },
    };
    let time_zone = match json::read_opt_text(json::member(v, "timeZone", 1)) {
        Some(x) => x,
        None => {
            return None;
        },
    };
    Some(TodoTime { date_time, time_zone })
}

/// How an optional member reads as a [`TodoTime`].
pub open spec fn opt_todo_time_member(m: Option<JsonV>) -> Option<Option<TodoTimeV>> {
    match m {
        None => Some(None),
        Some(JsonV::Null) => Some(None),
        Some(j) => match todo_time_of(j) {
            Some(x) => Some(Some(x)),
            None => None,
        },
    }
}

fn read_opt_todo_time(m: Option<&Json>) -> (r: Option<Option<TodoTime>>)
    ensures
        match r {
            Some(o) => opt_todo_time_member(json::opt_json(m)) == Some(opt_todo_time(o)),
            None => opt_todo_time_member(json::opt_json(m)) is None,
        },
{
    match m {
        None => Some(None),
        Some(j) => if j.is_null() {
            Some(None)
        } else {
            match read_todo_time(j) {
                Some(x) => Some(Some(x)),
                None => None,
            }
        },
    }
}
/// A task as the service sends it.
pub struct TodoTask {
    pub id: String,
    pub title: Option<String>,
    pub status: Option<String>,
    pub importance: Option<String>,
    pub due_date_time: Option<TodoTime>,
    pub reminder_date_time: Option<TodoTime>,
}

/// The model of [`TodoTask`].
pub struct TodoTaskV {
    pub id: Seq<char>,
    pub title: Option<Seq<char>>,
    pub status: Option<Seq<char>>,
    pub importance: Option<Seq<char>>,
    pub due_date_time: Option<TodoTimeV>,
    pub reminder_date_time: Option<TodoTimeV>,
}

impl View for TodoTask {
    type V = TodoTaskV;

    open spec fn view(&self) -> TodoTaskV {
        TodoTaskV {
            id: self.id@,
            title: text::opt_text(self.title),
            status: text::opt_text(self.status),
            importance: text::opt_text(self.importance),
            due_date_time: opt_todo_time(self.due_date_time),
            reminder_date_time: opt_todo_time(self.reminder_date_time),
        }
    }
}

/// A list of [`TodoTask`] by their models.
pub open spec fn todo_task_views(v: Seq<TodoTask>) -> Seq<TodoTaskV> {
    Seq::new(v.len(), |i: int| v[i]@)
}

/// How a JSON value reads as a [`TodoTask`]; nothing where it does not.
pub open spec fn todo_task_of(v: JsonV) -> Option<TodoTaskV> {
    if !json::record_form(v, 6, 6) {
        None
    } else {
        match (
            json::str_of(json::member_of(v, "id"@, 0)),
            json::opt_text_member(json::member_of(v, "title"@, 1)),
            json::opt_text_member(json::member_of(v, "status"@, 2)),
            json::opt_text_member(json::member_of(v, "importance"@, 3)),
            opt_todo_time_member(json::member_of(v, "dueDateTime"@, 4)),
            opt_todo_time_member(json::member_of(v, "reminderDateTime"@, 5)),
        ) {
            (
                Some(id),
                Some(title),
                Some(status),
                Some(importance),
                Some(due_date_time),
                Some(reminder_date_time),
            ) => Some(
                TodoTaskV { id, title, status, importance, due_date_time, reminder_date_time },
            ),
            _ => None,
        }
    }
}

/// Reads a [`TodoTask`].
pub fn read_todo_task(v: &Json) -> (r: Option<TodoTask>)
    ensures
        match r {
            Some(x) => todo_task_of(v@) == Some(x@),
            None => todo_task_of(v@) is None,
        },
{
    if !json::has_record_form(v, 6, 6) {
        return None;
    }
    let id = match json::as_text(json::member(v, "id", 0)) {
        Some(x) => x,
        None => {
            return None;
        },
    };
    let title = match json::read_opt_text(json::member(v, "title", 1)) {
        Some(x) => x,
        None => {
            return None;
        },
    };
    let status = match json::read_opt_text(json::member(v, "status", 2)) {
        Some(x) => x,
        None => {
            return None;
        },
    };
    let importance = match json::read_opt_text(json::member(v, "importance", 3)) {
        Some(x) => x,
        None => {
            return None;
        },
    };
    let due_date_time = match read_opt_todo_time(json::member(v, "dueDateTime", 4)) {
        Some(x) => x,
        None => {
            return None;
        },
    };
    let reminder_date_time = match read_opt_todo_time(json::member(v, "reminderDateTime", 5)) {
        Some(x) => x,
        None => {
            return None;
        },
    };
    Some(TodoTask { id, title, status, importance, due_date_time, reminder_date_time })
}

/// How a list of JSON values reads as a list of [`TodoTask`]: all of them or none.
pub open spec fn todo_task_list(a: Seq<JsonV>) -> Option<Seq<TodoTaskV>>
    decreases a.len(),
{
    if a.len() == 0 {
        Some(Seq::empty())
    } else {
        match (todo_task_list(a.drop_last()), todo_task_of(a.last())) {
            (Some(l), Some(x)) => Some(l.push(x)),
            _ => None,
        }
    }
}

proof fn lemma_todo_task_list_prefix(a: Seq<JsonV>, i: int)
    requires
        0 <= i <= a.len(),
        todo_task_list(a.take(i)) is None,
    ensures
        todo_task_list(a) is None,
    decreases a.len() - i,
{
    if i < a.len() {
        assert(a.take(i + 1).drop_last() =~= a.take(i));
        lemma_todo_task_list_prefix(a, i + 1);
    } else {
        assert(a.take(i) =~= a);
    }
}

fn read_todo_task_list(a: &Vec<Json>) -> (r: Option<Vec<TodoTask>>)
    ensures
        match r {
            Some(l) => todo_task_list(json::items_view(a@)) == Some(todo_task_views(l@)),
            None => todo_task_list(json::items_view(a@)) is None,
        },
{
    let ghost all = json::items_view(a@);
    let mut out: Vec<TodoTask> = Vec::new();
    let mut i: usize = 0;
    proof {
        assert(all.take(0) =~= Seq::empty());
        assert(todo_task_views(out@) =~= Seq::empty());
    }
    while i < a.len()
        invariant
            i <= a@.len(),
            all == json::items_view(a@),
            todo_task_list(all.take(i as int)) == Some(todo_task_views(out@)),
        decreases a@.len() - i,
    {
        proof {
            assert(all.take(i + 1).drop_last() =~= all.take(i as int));
            assert(all.take(i + 1).last() == a@[i as int]@);
        }
        match read_todo_task(&a[i]) {
            Some(x) => {
                let ghost before = out@;
                out.push(x);
                proof {
                    assert(todo_task_views(out@) =~= todo_task_views(before).push(x@));
                }
            },
            None => {
                proof {
                    lemma_todo_task_list_prefix(all, i + 1);
                }
                return None;
            },
        }
        i = i + 1;
    }
    proof {
        assert(all.take(i as int) =~= all);
    }
    Some(out)
}

/// How a required list member reads.
pub open spec fn todo_task_list_member(m: Option<JsonV>) -> Option<Seq<TodoTaskV>> {
    match m {
        Some(JsonV::Arr(a)) => todo_task_list(a),
        _ => None,
    }
}

fn read_todo_task_list_member(m: Option<&Json>) -> (r: Option<Vec<TodoTask>>)
    ensures
        match r {
            Some(l) => todo_task_list_member(json::opt_json(m)) == Some(todo_task_views(l@)),
            None => todo_task_list_member(json::opt_json(m)) is None,
        },
{
    match m {
        Some(Json::Arr(a)) => {
            proof {
                json::lemma_arr_view(*a);
            }
            read_todo_task_list(a)
        },
        _ => None,
    }
}
/// The reply to a request for tasks.
pub struct TodoTasksResponse {
    pub value: Vec<TodoTask>,
}

/// The model of [`TodoTasksResponse`].
pub struct TodoTasksResponseV {
    pub value: Seq<TodoTaskV>,
}

impl View for TodoTasksResponse {
    type V = TodoTasksResponseV;

    open spec fn view(&self) -> TodoTasksResponseV {
        TodoTasksResponseV {
            value: todo_task_views(self.value@),
        }
    }
}

/// How a JSON value reads as a [`TodoTasksResponse`]; nothing where it does not.
pub open spec fn todo_tasks_response_of(v: JsonV) -> Option<TodoTasksResponseV> {
    if !json::record_form(v, 1, 1) {
        None
    } else {
        match todo_task_list_member(json::member_of(v, "value"@, 0)) {
            Some(value) => Some(TodoTasksResponseV { value }),
            None => None,
        }
    }
}

/// Reads a [`TodoTasksResponse`].
pub fn read_todo_tasks_response(v: &Json) -> (r: Option<TodoTasksResponse>)
    ensures
        match r {
            Some(x) => todo_tasks_response_of(v@) == Some(x@),
            None => todo_tasks_response_of(v@) is None,
        },
{
    if !json::has_record_form(v, 1, 1) {
        return None;
    }
    let value = match read_todo_task_list_member(json::member(v, "value", 0)) {
        Some(x) => x,
        None => {
            return None;
        },
    };
    Some(TodoTasksResponse { value })
}
/// What is shown of a list of tasks.
pub struct TodoListInfo {
    pub id: String,
    pub name: String,
    /// What kind of list it is, where it is a built-in one.
    pub wellknown: Option<String>,
}

/// The model of [`TodoListInfo`].
pub struct TodoListInfoV {
    pub id: Seq<char>,
    pub name: Seq<char>,
    pub wellknown: Option<Seq<char>>,
}

impl View for TodoListInfo {
    type V = TodoListInfoV;

    open spec fn view(&self) -> TodoListInfoV {
        TodoListInfoV {
            id: self.id@,
            name: self.name@,
            wellknown: text::opt_text(self.wellknown),
        }
    }
}
/// A list of [`TodoListInfo`] by their models.
pub open spec fn todo_list_info_views(v: Seq<TodoListInfo>) -> Seq<TodoListInfoV> {
    Seq::new(v.len(), |i: int| v[i]@)
}
/// What is shown of a task.
pub struct TodoTaskInfo {
    pub id: String,
    pub title: String,
    pub status: String,
    pub importance: String,
    pub due: Option<String>,
    pub reminder: Option<String>,
    pub completed: bool,
}

/// The model of [`TodoTaskInfo`].
pub struct TodoTaskInfoV {
    pub id: Seq<char>,
    pub title: Seq<char>,
    pub status: Seq<char>,
    pub importance: Seq<char>,
    pub due: Option<Seq<char>>,
    pub reminder: Option<Seq<char>>,
    pub completed: bool,
}

impl View for TodoTaskInfo {
    type V = TodoTaskInfoV;

    open spec fn view(&self) -> TodoTaskInfoV {
        TodoTaskInfoV {
            id: self.id@,
            title: self.title@,
            status: self.status@,
            importance: self.importance@,
            due: text::opt_text(self.due),
            reminder: text::opt_text(self.reminder),
            completed: self.completed,
        }
    }
}
/// A list of [`TodoTaskInfo`] by their models.
pub open spec fn todo_task_info_views(v: Seq<TodoTaskInfo>) -> Seq<TodoTaskInfoV> {
    Seq::new(v.len(), |i: int| v[i]@)
}

/// What is shown of a list; without a name, its id.
pub open spec fn list_row(l: TodoListV) -> TodoListInfoV {
    TodoListInfoV {
        id: l.id,
        name: teams::or_text(calendar::unless_blank(l.display_name), l.id),
        wellknown: l.wellknown_list_name,
    }
}

/// What is shown of a list.
pub fn list_info(l: &TodoList) -> (r: TodoListInfo)
    ensures
        r@ == list_row(l@),
{
    let name = match calendar::filter_blank(&l.display_name) {
        Some(n) => n,
        None => l.id.clone(),
    };
    TodoListInfo { id: l.id.clone(), name, wellknown: text::copy_opt(&l.wellknown_list_name) }
}

/// The time of an optional time with a zone.
pub open spec fn time_text(t: Option<TodoTimeV>) -> Option<Seq<char>> {
    match t {
        Some(t) => t.date_time,
        None => None,
    }
}

fn zoned(t: &Option<TodoTime>) -> (r: Option<String>)
    ensures
        text::opt_text(r) == time_text(opt_todo_time(*t)),
{
    match t {
        Some(t) => text::copy_opt(&t.date_time),
        None => None,
    }
}

/// What is shown of a task: it is not started and of normal importance unless it
/// says otherwise, and completed if its status says so in any case.
pub open spec fn task_row(t: TodoTaskV) -> TodoTaskInfoV {
    let status = teams::or_text(t.status, "notStarted"@);
    TodoTaskInfoV {
        id: t.id,
        title: teams::or_text(t.title, Seq::empty()),
        status,
        importance: teams::or_text(t.importance, "normal"@),
        due: time_text(t.due_date_time),
        reminder: time_text(t.reminder_date_time),
        completed: text::lowered(status) == text::lowered("completed"@),
    }
}

/// What is shown of a task.
pub fn task_info(t: &TodoTask) -> (r: TodoTaskInfo)
    ensures
        r@ == task_row(t@),
{
    let status = teams::text_or(&t.status, "notStarted");
    let completed = text::same_ignoring_case(status.as_str(), "completed");
    proof {
        reveal_strlit("");
        assert(""@ =~= Seq::empty());
    }
    TodoTaskInfo {
        id: t.id.clone(),
        title: teams::text_or(&t.title, ""),
        status,
        importance: teams::text_or(&t.importance, "normal"),
        due: zoned(&t.due_date_time),
        reminder: zoned(&t.reminder_date_time),
        completed,
    }
}
/// What is shown of the lists, in order.
pub open spec fn list_rows(v: Seq<TodoListV>) -> Seq<TodoListInfoV> {
    Seq::new(v.len(), |i: int| list_row(v[i]))
}

/// What is shown of the lists, in order.
pub fn list_infos(v: &Vec<TodoList>) -> (r: Vec<TodoListInfo>)
    ensures
        todo_list_info_views(r@) == list_rows(todo_list_views(v@)),
{
    let mut out: Vec<TodoListInfo> = Vec::new();
    let mut i: usize = 0;
    while i < v.len()
        invariant
            i <= v@.len(),
            out@.len() == i,
            forall|j: int| 0 <= j < i ==> (#[trigger] out@[j])@ == list_row(v@[j]@),
        decreases v@.len() - i,
    {
        out.push(list_info(&v[i]));
        i = i + 1;
    }
    proof {
        assert(todo_list_info_views(out@) =~= list_rows(todo_list_views(v@)));
    }
    out
}
/// What is shown of the tasks, in order.
pub open spec fn task_rows(v: Seq<TodoTaskV>) -> Seq<TodoTaskInfoV> {
    Seq::new(v.len(), |i: int| task_row(v[i]))
}

/// What is shown of the tasks, in order.
pub fn task_infos(v: &Vec<TodoTask>) -> (r: Vec<TodoTaskInfo>)
    ensures
        todo_task_info_views(r@) == task_rows(todo_task_views(v@)),
{
    let mut out: Vec<TodoTaskInfo> = Vec::new();
    let mut i: usize = 0;
    while i < v.len()
        invariant
            i <= v@.len(),
            out@.len() == i,
            forall|j: int| 0 <= j < i ==> (#[trigger] out@[j])@ == task_row(v@[j]@),
        decreases v@.len() - i,
    {
        out.push(task_info(&v[i]));
        i = i + 1;
    }
    proof {
        assert(todo_task_info_views(out@) =~= task_rows(todo_task_views(v@)));
    }
    out
}
/// The lists of tasks, by the JSON value of the reply; nothing where it is of another form.
pub open spec fn todo_lists_of(v: JsonV) -> Option<Seq<TodoListInfoV>> {
    match todo_lists_response_of(v) {
        Some(x) => Some(list_rows(x.value)),
        None => None,
    }
}

/// The lists of tasks, by the JSON value of the reply.
pub fn read_todo_lists(v: &Json) -> (r: Option<Vec<TodoListInfo>>)
    ensures
        match r {
            Some(l) => todo_lists_of(v@) == Some(todo_list_info_views(l@)),
            None => todo_lists_of(v@) is None,
        },
{
    match read_todo_lists_response(v) {
        Some(x) => Some(list_infos(&x.value)),
        None => None,
    }
}

/// The lists of tasks, by the body of the reply.
pub fn list_todo_lists_data(body: &[u8]) -> (r: Result<Vec<TodoListInfo>, String>)
    ensures
        match r {
            Ok(l) => json::json_bytes(body@) matches Some(v) && todo_lists_of(v) == Some(
                todo_list_info_views(l@),
            ),
            Err(e) => (json::json_bytes(body@) matches Some(v) ==> todo_lists_of(v) is None) && e@
                == "Failed to parse todo lists response"@,
        },
{
    if let Some(v) = json::parse_json_bytes(body) {
        if let Some(l) = read_todo_lists(&v) {
            return Ok(l);
        }
    }
    Err("Failed to parse todo lists response".to_string())
}
/// The tasks of a list, by the JSON value of the reply; nothing where it is of another form.
pub open spec fn todo_tasks_of(v: JsonV) -> Option<Seq<TodoTaskInfoV>> {
    match todo_tasks_response_of(v) {
        Some(x) => Some(task_rows(x.value)),
        None => None,
    }
}

/// The tasks of a list, by the JSON value of the reply.
pub fn read_todo_tasks(v: &Json) -> (r: Option<Vec<TodoTaskInfo>>)
    ensures
        match r {
            Some(l) => todo_tasks_of(v@) == Some(todo_task_info_views(l@)),
            None => todo_tasks_of(v@) is None,
        },
{
    match read_todo_tasks_response(v) {
        Some(x) => Some(task_infos(&x.value)),
        None => None,
    }
}

/// The tasks of a list, by the body of the reply.
pub fn list_todo_tasks_data(body: &[u8]) -> (r: Result<Vec<TodoTaskInfo>, String>)
    ensures
        match r {
            Ok(l) => json::json_bytes(body@) matches Some(v) && todo_tasks_of(v) == Some(
                todo_task_info_views(l@),
            ),
            Err(e) => (json::json_bytes(body@) matches Some(v) ==> todo_tasks_of(v) is None) && e@
                == "Failed to parse todo tasks response"@,
        },
{
    if let Some(v) = json::parse_json_bytes(body) {
        if let Some(l) = read_todo_tasks(&v) {
            return Ok(l);
        }
    }
    Err("Failed to parse todo tasks response".to_string())
}
/// A task that was created, by the JSON value of the reply; nothing where it is of another form.
pub open spec fn created_task_of(v: JsonV) -> Option<TodoTaskInfoV> {
    match todo_task_of(v) {
        Some(x) => Some(task_row(x)),
        None => None,
    }
}

/// A task that was created, by the JSON value of the reply.
pub fn read_created_task(v: &Json) -> (r: Option<TodoTaskInfo>)
    ensures
        match r {
            Some(x) => created_task_of(v@) == Some(x@),
            None => created_task_of(v@) is None,
        },
{
    match read_todo_task(v) {
        Some(x) => Some(task_info(&x)),
        None => None,
    }
}

/// A task that was created, by the body of the reply.
pub fn parse_created_task(body: &[u8]) -> (r: Result<TodoTaskInfo, String>)
    ensures
        match r {
            Ok(x) => json::json_bytes(body@) matches Some(v) && created_task_of(v) == Some(x@),
            Err(e) => (json::json_bytes(body@) matches Some(v) ==> created_task_of(v) is None) && e@
                == "Failed to parse created todo task response"@,
        },
{
    if let Some(v) = json::parse_json_bytes(body) {
        if let Some(x) = read_created_task(&v) {
            return Ok(x);
        }
    }
    Err("Failed to parse created todo task response".to_string())
}
/// A task that was completed, by the JSON value of the reply; nothing where it is of another form.
pub open spec fn completed_task_of(v: JsonV) -> Option<TodoTaskInfoV> {
    match todo_task_of(v) {
        Some(x) => Some(task_row(x)),
        None => None,
    }
}

/// A task that was completed, by the JSON value of the reply.
pub fn read_completed_task(v: &Json) -> (r: Option<TodoTaskInfo>)
    ensures
        match r {
            Some(x) => completed_task_of(v@) == Some(x@),
            None => completed_task_of(v@) is None,
        },
{
    match read_todo_task(v) {
        Some(x) => Some(task_info(&x)),
        None => None,
    }
}

/// A task that was completed, by the body of the reply.
pub fn parse_completed_task(body: &[u8]) -> (r: Result<TodoTaskInfo, String>)
    ensures
        match r {
            Ok(x) => json::json_bytes(body@) matches Some(v) && completed_task_of(v) == Some(x@),
            Err(e) => (json::json_bytes(body@) matches Some(v) ==> completed_task_of(v) is None)
                && e@
                == "Failed to parse completed todo task response"@,
        },
{
    if let Some(v) = json::parse_json_bytes(body) {
        if let Some(x) = read_completed_task(&v) {
            return Ok(x);
        }
    }
    Err("Failed to parse completed todo task response".to_string())
}

/// The path of the lists of tasks.
pub fn lists_path() -> (r: &'static str)
    ensures
        r@ == "/me/todo/lists"@,
{
    "/me/todo/lists"
}

/// The path of the tasks of a list; the error is the text to show.
pub fn todo_tasks_path(list_id: &str, limit: usize) -> (r: Result<String, String>)
    ensures
        match r {
            Ok(p) => web::id_error("list_id"@, list_id@) is None && p@ == "/me/todo/lists/"@
                + list_id@ + "/tasks?$top="@ + text::decimal(limit as nat),
            Err(e) => web::id_error("list_id"@, list_id@) == Some(e@),
        },
{
    match web::check_id("list_id", list_id) {
        Ok(_) => {
            let mut s = "/me/todo/lists/".to_string();
            s.append(list_id);
            s.append("/tasks?$top=");
            s.append(text::to_decimal(limit as u64).as_str());
            Ok(s)
        },
        Err(e) => Err(e),
    }
}

/// Why a task cannot be created.
pub open spec fn create_error(list_id: Seq<char>, title: Seq<char>) -> Option<Seq<char>> {
    teams::first_error(
        web::id_error("list_id"@, list_id),
        if text::blank(title) {
            Some("empty title"@)
        } else {
            None
        },
    )
}

/// The request that creates a task; the error is the text to show.
pub fn create_todo_task_data(list_id: &str, title: &str) -> (r: Result<teams::GraphPost, String>)
    ensures
        match r {
            Ok(q) => create_error(list_id@, title@) is None && q.path@ == "/me/todo/lists/"@
                + list_id@ + "/tasks"@ && q.body@ == FieldsV::new().text("title"@, title@).obj(),
            Err(e) => create_error(list_id@, title@) == Some(e@),
        },
{
    match web::check_id("list_id", list_id) {
        Ok(_) => {},
        Err(e) => {
            return Err(e);
        },
    }
    if text::is_blank(title) {
        return Err("empty title".to_string());
    }
    let mut o = Fields::new();
    o.text("title", title);
    Ok(
        teams::GraphPost {
            path: text::join3("/me/todo/lists/", list_id, "/tasks"),
            body: o.obj(),
        },
    )
}

/// Why a task cannot be completed.
pub open spec fn complete_error(list_id: Seq<char>, task_id: Seq<char>) -> Option<Seq<char>> {
    teams::first_error(
        web::id_error("list_id"@, list_id),
        web::id_error("task_id"@, task_id),
    )
}

/// The change that completes a task; the error is the text to show.
pub fn complete_todo_task_data(
    list_id: &str,
    task_id: &str,
) -> (r: Result<teams::GraphPost, String>)
    ensures
        match r {
            Ok(q) => complete_error(list_id@, task_id@) is None && q.path@ == "/me/todo/lists/"@
                + list_id@ + "/tasks/"@ + task_id@ && q.body@ == FieldsV::new().text(
                "status"@,
                "completed"@,
            ).obj(),
            Err(e) => complete_error(list_id@, task_id@) == Some(e@),
        },
{
    match web::check_id("list_id", list_id) {
        Ok(_) => {},
        Err(e) => {
            return Err(e);
        },
    }
    match web::check_id("task_id", task_id) {
        Ok(_) => {},
        Err(e) => {
            return Err(e);
        },
    }
    let mut path = text::join3("/me/todo/lists/", list_id, "/tasks/");
    path.append(task_id);
    let mut o = Fields::new();
    o.text("status", "completed");
    Ok(teams::GraphPost { path, body: o.obj() })
}

/// What the command line asks for.
pub enum TodoAction {
    /// Create a task with a title in a list.
    Create(String, String),
    /// Mark a task, by its id, of a list as done.
    Complete(String, String),
    /// Show the tasks of a list.
    Tasks(String),
    /// Show the lists.
    Lists,
}

/// Says what the options of the command line ask for: to create, else to
/// complete, else to show tasks or lists. The error is the text to show.
pub fn todo_action(
    list: Option<String>,
    add: Option<String>,
    to: Option<String>,
    done: Option<String>,
) -> (r: Result<TodoAction, String>)
    ensures
        match add {
            Some(title) => match to {
                Some(id) => r == Ok::<TodoAction, String>(TodoAction::Create(id, title)),
                None => r matches Err(e) && e@ == "--add requires --to <list-id>"@,
            },
            None => match done {
                Some(task) => match to {
                    Some(id) => r == Ok::<TodoAction, String>(TodoAction::Complete(id, task)),
                    None => r matches Err(e) && e@ == "--done requires --to <list-id>"@,
                },
                None => match list {
                    Some(id) => r == Ok::<TodoAction, String>(TodoAction::Tasks(id)),
                    None => r == Ok::<TodoAction, String>(TodoAction::Lists),
                },
            },
        },
{
    match add {
        Some(title) => match to {
            Some(id) => Ok(TodoAction::Create(id, title)),
            None => Err("--add requires --to <list-id>".to_string()),
        },
        None => match done {
            Some(task) => match to {
                Some(id) => Ok(TodoAction::Complete(id, task)),
                None => Err("--done requires --to <list-id>".to_string()),
            },
            None => match list {
                Some(id) => Ok(TodoAction::Tasks(id)),
                None => Ok(TodoAction::Lists),
            },
        },
    }
}

// -- What the commands show --

/// What is shown of a list.
pub open spec fn list_shown(x: TodoListInfoV) -> Seq<char> {
    x.name
        + (match x.wellknown {
            Some(t) => " ["@ + t + "]"@,
            None => Seq::empty(),
        }) + "\n  ID: "@ + x.id + "\n\n"@
}

fn show_list(x: &TodoListInfo) -> (r: String)
    ensures
        r@ == list_shown(x@),
{
    let mut s = String::new();
    s.append(x.name.as_str());
    match &x.wellknown {
        Some(t) => {
            s.append(" [");
            s.append(t.as_str());
            s.append("]");
        },
        None => {},
    }
    s.append("\n  ID: ");
    s.append(x.id.as_str());
    s.append("\n\n");
    proof {
        assert(s@ =~= list_shown(x@));
    }
    s
}

/// What is shown of a list, entry by entry.
pub open spec fn lists_shown(v: Seq<TodoListInfoV>) -> Seq<char>
    decreases v.len(),
{
    if v.len() == 0 {
        Seq::empty()
    } else {
        lists_shown(v.drop_last()) + list_shown(v.last())
    }
}

fn show_lists(v: &Vec<TodoListInfo>) -> (r: String)
    ensures
        r@ == lists_shown(todo_list_info_views(v@)),
{
    let ghost all = todo_list_info_views(v@);
    let mut s = String::new();
    let mut i: usize = 0;
    proof {
        assert(all.take(0) =~= Seq::empty());
        assert(s@ =~= Seq::empty());
    }
    while i < v.len()
        invariant
            i <= v@.len(),
            all == todo_list_info_views(v@),
            s@ == lists_shown(all.take(i as int)),
        decreases v@.len() - i,
    {
        proof {
            assert(all.take(i + 1).drop_last() =~= all.take(i as int));
            assert(all.take(i + 1).last() == v@[i as int]@);
        }
        s.append(show_list(&v[i]).as_str());
        i = i + 1;
    }
    proof {
        assert(all.take(i as int) =~= all);
    }
    s
}

/// The lists of a user.
pub fn list_todo_lists(v: &Vec<TodoListInfo>) -> (r: String)
    ensures
        r@ == "\nTo Do Lists:\n------------------------------------------------------------\n"@
            + (if v@.len() == 0 {
            "  (no lists found)\n"@
        } else {
            lists_shown(todo_list_info_views(v@))
        }),
{
    let mut s = String::new();
    s.append("\nTo Do Lists:\n------------------------------------------------------------\n");
    if v.len() == 0 {
        s.append("  (no lists found)\n");
    } else {
        s.append(show_lists(v).as_str());
    }
    proof {
        assert(s@ =~= "\nTo Do Lists:\n------------------------------------------------------------\n"@
            + (if v@.len() == 0 {
            "  (no lists found)\n"@
        } else {
            lists_shown(todo_list_info_views(v@))
        }));
    }
    s
}

/// What is shown of a task.
pub open spec fn task_shown(x: TodoTaskInfoV) -> Seq<char> {
    (if x.completed {
            "[x]"@
        } else {
            "[ ]"@
        }) + " "@ + x.title
        + (match x.due {
            Some(t) => " (due "@ + t + ")"@,
            None => Seq::empty(),
        }) + "\n  ID: "@ + x.id + "\n\n"@
}

fn show_task(x: &TodoTaskInfo) -> (r: String)
    ensures
        r@ == task_shown(x@),
{
    let mut s = String::new();
    if x.completed {
        s.append("[x]");
    } else {
        s.append("[ ]");
    }
    s.append(" ");
    s.append(x.title.as_str());
    match &x.due {
        Some(t) => {
            s.append(" (due ");
            s.append(t.as_str());
            s.append(")");
        },
        None => {},
    }
    s.append("\n  ID: ");
    s.append(x.id.as_str());
    s.append("\n\n");
    proof {
        assert(s@ =~= task_shown(x@));
    }
    s
}

/// What is shown of a list, entry by entry.
pub open spec fn tasks_shown(v: Seq<TodoTaskInfoV>) -> Seq<char>
    decreases v.len(),
{
    if v.len() == 0 {
        Seq::empty()
    } else {
        tasks_shown(v.drop_last()) + task_shown(v.last())
    }
}

fn show_tasks(v: &Vec<TodoTaskInfo>) -> (r: String)
    ensures
        r@ == tasks_shown(todo_task_info_views(v@)),
{
    let ghost all = todo_task_info_views(v@);
    let mut s = String::new();
    let mut i: usize = 0;
    proof {
        assert(all.take(0) =~= Seq::empty());
        assert(s@ =~= Seq::empty());
    }
    while i < v.len()
        invariant
            i <= v@.len(),
            all == todo_task_info_views(v@),
            s@ == tasks_shown(all.take(i as int)),
        decreases v@.len() - i,
    {
        proof {
            assert(all.take(i + 1).drop_last() =~= all.take(i as int));
            assert(all.take(i + 1).last() == v@[i as int]@);
        }
        s.append(show_task(&v[i]).as_str());
        i = i + 1;
    }
    proof {
        assert(all.take(i as int) =~= all);
    }
    s
}

/// The tasks of a list.
pub fn list_todo_tasks(v: &Vec<TodoTaskInfo>) -> (r: String)
    ensures
        r@ == "\nTasks:\n------------------------------------------------------------\n"@
            + (if v@.len() == 0 {
            "  (no tasks)\n"@
        } else {
            tasks_shown(todo_task_info_views(v@))
        }),
{
    let mut s = String::new();
    s.append("\nTasks:\n------------------------------------------------------------\n");
    if v.len() == 0 {
        s.append("  (no tasks)\n");
    } else {
        s.append(show_tasks(v).as_str());
    }
    proof {
        assert(s@ =~= "\nTasks:\n------------------------------------------------------------\n"@
            + (if v@.len() == 0 {
            "  (no tasks)\n"@
        } else {
            tasks_shown(todo_task_info_views(v@))
        }));
    }
    s
}

// -- What is read --

/// What is read of a [`TodoList`] stands in the members of these names, and it is read
/// where they hold what they should.
pub proof fn law_todo_list_reads_its_members(v: JsonV)
    requires
        v is Obj,
    ensures
        match todo_list_of(v) {
            Some(x) => {
                &&& json::str_of(json::get_of(v, "id"@)) == Some(x.id)
                &&& x.display_name == json::str_of(json::get_of(v, "displayName"@))
                &&& x.wellknown_list_name == json::str_of(json::get_of(v, "wellknownListName"@))
            },
            None => !(json::str_of(json::get_of(v, "id"@)) is Some
                && json::opt_text_member(json::get_of(v, "displayName"@)) is Some
                && json::opt_text_member(json::get_of(v, "wellknownListName"@)) is Some),
        },
{
}

// The entries of a list, in their order.
proof fn lemma_todo_list_list_entries(a: Seq<JsonV>)
    ensures
        todo_list_list(a) matches Some(l) ==> l.len() == a.len() && forall|i: int|
            0 <= i < a.len() ==> todo_list_of(a[i]) == Some(#[trigger] l[i]),
    decreases a.len(),
{
    if a.len() > 0 {
        lemma_todo_list_list_entries(a.drop_last());
        if let Some(l) = todo_list_list(a) {
            assert forall|i: int| 0 <= i < a.len() implies todo_list_of(a[i])
                == Some(#[trigger] l[i]) by {
                if i < a.len() - 1 {
                    let before = todo_list_list(a.drop_last())->0;
                    assert(l[i] == before[i]);
                    assert(a.drop_last()[i] == a[i]);
                }
            }
        }
    }
}

/// What is read of a [`TodoListsResponse`] stands in the members of these names, and it is read
/// where they hold what they should.
pub proof fn law_todo_lists_response_reads_its_members(v: JsonV)
    requires
        v is Obj,
    ensures
        match todo_lists_response_of(v) {
            Some(x) => {
                &&& (json::arr_of(json::get_of(v, "value"@)) matches Some(a)
                    && x.value.len() == a.len() && forall|i: int| 0 <= i < a.len()
                    ==> todo_list_of(a[i]) == Some(#[trigger] x.value[i]))
            },
            None => !(todo_list_list_member(json::get_of(v, "value"@)) is Some),
        },
{
    if let Some(JsonV::Arr(a)) = json::get_of(v, "value"@) {
        lemma_todo_list_list_entries(a);
    }
}

/// What is read of a [`TodoTime`] stands in the members of these names, and it is read
/// where they hold what they should.
pub proof fn law_todo_time_reads_its_members(v: JsonV)
    requires
        v is Obj,
    ensures
        match todo_time_of(v) {
            Some(x) => {
                &&& x.date_time == json::str_of(json::get_of(v, "dateTime"@))
                &&& x.time_zone == json::str_of(json::get_of(v, "timeZone"@))
            },
            None => !(json::opt_text_member(json::get_of(v, "dateTime"@)) is Some
                && json::opt_text_member(json::get_of(v, "timeZone"@)) is Some),
        },
{
}

/// What is read of a [`TodoTask`] stands in the members of these names, and it is read
/// where they hold what they should.
pub proof fn law_todo_task_reads_its_members(v: JsonV)
    requires
        v is Obj,
    ensures
        match todo_task_of(v) {
            Some(x) => {
                &&& json::str_of(json::get_of(v, "id"@)) == Some(x.id)
                &&& x.title == json::str_of(json::get_of(v, "title"@))
                &&& x.status == json::str_of(json::get_of(v, "status"@))
                &&& x.importance == json::str_of(json::get_of(v, "importance"@))
                &&& (json::get_of(v, "dueDateTime"@) is None
                    || json::get_of(v, "dueDateTime"@) == Some(JsonV::Null))
                    ==> x.due_date_time is None
                &&& json::get_of(v, "dueDateTime"@) matches Some(w) ==> w != JsonV::Null
                    ==> x.due_date_time is Some && todo_time_of(w) == x.due_date_time
                &&& (json::get_of(v, "reminderDateTime"@) is None
                    || json::get_of(v, "reminderDateTime"@) == Some(JsonV::Null))
                    ==> x.reminder_date_time is None
                &&& json::get_of(v, "reminderDateTime"@) matches Some(w) ==> w != JsonV::Null
                    ==> x.reminder_date_time is Some && todo_time_of(w) == x.reminder_date_time
            },
            None => !(json::str_of(json::get_of(v, "id"@)) is Some
                && json::opt_text_member(json::get_of(v, "title"@)) is Some
                && json::opt_text_member(json::get_of(v, "status"@)) is Some
                && json::opt_text_member(json::get_of(v, "importance"@)) is Some
                && opt_todo_time_member(json::get_of(v, "dueDateTime"@)) is Some
                && opt_todo_time_member(json::get_of(v, "reminderDateTime"@)) is Some),
        },
{
}

// The entries of a list, in their order.
proof fn lemma_todo_task_list_entries(a: Seq<JsonV>)
    ensures
        todo_task_list(a) matches Some(l) ==> l.len() == a.len() && forall|i: int|
            0 <= i < a.len() ==> todo_task_of(a[i]) == Some(#[trigger] l[i]),
    decreases a.len(),
{
    if a.len() > 0 {
        lemma_todo_task_list_entries(a.drop_last());
        if let Some(l) = todo_task_list(a) {
            assert forall|i: int| 0 <= i < a.len() implies todo_task_of(a[i])
                == Some(#[trigger] l[i]) by {
                if i < a.len() - 1 {
                    let before = todo_task_list(a.drop_last())->0;
                    assert(l[i] == before[i]);
                    assert(a.drop_last()[i] == a[i]);
                }
            }
        }
    }
}

/// What is read of a [`TodoTasksResponse`] stands in the members of these names, and it is read
/// where they hold what they should.
pub proof fn law_todo_tasks_response_reads_its_members(v: JsonV)
    requires
        v is Obj,
    ensures
        match todo_tasks_response_of(v) {
            Some(x) => {
                &&& (json::arr_of(json::get_of(v, "value"@)) matches Some(a)
                    && x.value.len() == a.len() && forall|i: int| 0 <= i < a.len()
                    ==> todo_task_of(a[i]) == Some(#[trigger] x.value[i]))
            },
            None => !(todo_task_list_member(json::get_of(v, "value"@)) is Some),
        },
{
    if let Some(JsonV::Arr(a)) = json::get_of(v, "value"@) {
        lemma_todo_task_list_entries(a);
    }
}

// -- What is listed and sent --

/// Lists go by their own names, else by their ids, in the order in which they came.
pub proof fn law_lists_are_listed_as_they_came(v: Seq<TodoListV>, i: int)
    requires
        0 <= i < v.len(),
    ensures
        list_rows(v).len() == v.len(),
        list_rows(v)[i].id == v[i].id,
        v[i].display_name matches Some(t) ==> (!text::blank(t) ==> list_rows(v)[i].name == t),
        v[i].display_name is None ==> list_rows(v)[i].name == v[i].id,
        list_rows(v)[i].wellknown == v[i].wellknown_list_name,
{
}

/// A task is done where its status says so, in either case of its letters; everything else
/// of it is shown as it is.
pub proof fn law_tasks_are_done_by_status(v: Seq<TodoTaskV>, i: int)
    requires
        0 <= i < v.len(),
    ensures
        task_rows(v).len() == v.len(),
        ({
            let t = v[i];
            let r = task_rows(v)[i];
            &&& r.id == t.id
            &&& t.title matches Some(s) ==> r.title == s
            &&& t.status matches Some(s) ==> r.status == s && (r.completed <==> text::lowered(s)
                == text::lowered("completed"@))
            &&& t.status is None ==> r.status == "notStarted"@ && !r.completed
            &&& t.importance matches Some(s) ==> r.importance == s
            &&& t.importance is None ==> r.importance == "normal"@
            &&& t.due_date_time matches Some(d) ==> r.due == d.date_time
            &&& t.due_date_time is None ==> r.due is None
            &&& t.reminder_date_time matches Some(d) ==> r.reminder == d.date_time
            &&& t.reminder_date_time is None ==> r.reminder is None
        }),
{
    assert("notStarted"@.len() == 10) by {
        reveal_strlit("notStarted");
    }
    assert("completed"@.len() == 9) by {
        reveal_strlit("completed");
    }
    assert(text::lowered("notStarted"@).len() == 10);
    assert(text::lowered("completed"@).len() == 9);
}

/// A task is made where its list may stand in a path and it has a title, and completed
/// where both ids may.
pub proof fn law_what_a_task_needs(list_id: Seq<char>, other: Seq<char>)
    ensures
        create_error(list_id, other) is None <==> web::id_error("list_id"@, list_id) is None
            && !text::blank(other),
        complete_error(list_id, other) is None <==> web::id_error("list_id"@, list_id) is None
            && web::id_error("task_id"@, other) is None,
        web::id_error("list_id"@, list_id) is Some ==> create_error(list_id, other)
            == web::id_error("list_id"@, list_id) && complete_error(list_id, other)
            == web::id_error("list_id"@, list_id),
        web::id_error("list_id"@, list_id) is None ==> complete_error(list_id, other)
            == web::id_error("task_id"@, other),
{
}

/// A task is shown with a mark where it is done, and without where it is not.
pub proof fn law_done_tasks_are_marked(x: TodoTaskInfoV)
    ensures
        x.completed ==> ("[x] "@ + x.title).is_prefix_of(task_shown(x)),
        !x.completed ==> ("[ ] "@ + x.title).is_prefix_of(task_shown(x)),
{
    reveal_strlit("[x] ");
    reveal_strlit("[ ] ");
    reveal_strlit("[x]");
    reveal_strlit("[ ]");
    reveal_strlit(" ");
    let s = task_shown(x);
    let n = x.title.len() as int + 4;
    assert("[x] "@ =~= "[x]"@ + " "@);
    assert("[ ] "@ =~= "[ ]"@ + " "@);
    if x.completed {
        assert(s.subrange(0, n) =~= "[x] "@ + x.title);
    } else {
        assert(s.subrange(0, n) =~= "[ ] "@ + x.title);
    }
}

/// Lists are shown one after the other, in their order.
pub proof fn law_lists_are_shown_in_order(a: Seq<TodoListInfoV>, b: Seq<TodoListInfoV>)
    ensures
        lists_shown(a + b) == lists_shown(a) + lists_shown(b),
    decreases b.len(),
{
    if b.len() == 0 {
        assert(a + b =~= a);
        assert(lists_shown(a) + lists_shown(b) =~= lists_shown(a));
    } else {
        law_lists_are_shown_in_order(a, b.drop_last());
        assert((a + b).drop_last() =~= a + b.drop_last());
        assert((a + b).last() == b.last());
        assert(lists_shown(a + b) =~= lists_shown(a) + lists_shown(b));
    }
}

/// Tasks are shown one after the other, in the order of the list.
pub proof fn law_tasks_are_shown_in_order(a: Seq<TodoTaskInfoV>, b: Seq<TodoTaskInfoV>)
    ensures
        tasks_shown(a + b) == tasks_shown(a) + tasks_shown(b),
    decreases b.len(),
{
    if b.len() == 0 {
        assert(a + b =~= a);
        assert(tasks_shown(a) + tasks_shown(b) =~= tasks_shown(a));
    } else {
        law_tasks_are_shown_in_order(a, b.drop_last());
        assert((a + b).drop_last() =~= a + b.drop_last());
        assert((a + b).last() == b.last());
        assert(tasks_shown(a + b) =~= tasks_shown(a) + tasks_shown(b));
    }
}

/// The lists that are shown are those of the answers that were read.
pub proof fn law_lists_of_tasks_are_read(v: JsonV)
    ensures
        todo_lists_of(v) is Some <==> todo_lists_response_of(v) is Some,
        todo_lists_of(v) matches Some(l)
            ==> (todo_lists_response_of(v) matches Some(x) && l == list_rows(x.value)),
        todo_tasks_of(v) is Some <==> todo_tasks_response_of(v) is Some,
        todo_tasks_of(v) matches Some(l)
            ==> (todo_tasks_response_of(v) matches Some(x) && l == task_rows(x.value)),
        created_task_of(v) is Some <==> todo_task_of(v) is Some,
        created_task_of(v) matches Some(l)
            ==> (todo_task_of(v) matches Some(x) && l == task_row(x)),
        completed_task_of(v) is Some <==> todo_task_of(v) is Some,
        completed_task_of(v) matches Some(l)
            ==> (todo_task_of(v) matches Some(x) && l == task_row(x)),
{
}

/// A list is shown by its name, then by its id.
pub proof fn law_list_begins_with_its_name(x: TodoListInfoV)
    ensures
        x.name.is_prefix_of(list_shown(x)),
        ("\n  ID: "@ + x.id + "\n\n"@).is_suffix_of(list_shown(x)),
{
    let s = list_shown(x);
    let t = "\n  ID: "@ + x.id + "\n\n"@;
    assert(s.subrange(0, x.name.len() as int) =~= x.name);
    assert(s.subrange(s.len() - t.len(), s.len() as int) =~= t);
}

} // verus!
