//! Plans, their buckets and their tasks.
use crate::api::calendar;
use crate::api::teams;
use crate::json;
use crate::json::{Fields, FieldsV, Json, JsonV};
use crate::text;
use crate::web;
use vstd::prelude::*;

verus! {

/// A plan as the service sends it.
pub struct Plan {
    pub id: String,
    pub title: Option<String>,
}

/// The model of [`Plan`].
pub struct PlanV {
    pub id: Seq<char>,
    pub title: Option<Seq<char>>,
}

impl View for Plan {
    type V = PlanV;

    open spec fn view(&self) -> PlanV {
        PlanV {
            id: self.id@,
            title: text::opt_text(self.title),
        }
    }
}

/// A list of [`Plan`] by their models.
pub open spec fn plan_views(v: Seq<Plan>) -> Seq<PlanV> {
    Seq::new(v.len(), |i: int| v[i]@)
}

/// How a JSON value reads as a [`Plan`]; nothing where it does not.
pub open spec fn plan_of(v: JsonV) -> Option<PlanV> {
    if !json::record_form(v, 2, 2) {
        None
    } else {
        match (
            json::str_of(json::member_of(v, "id"@, 0)),
            json::opt_text_member(json::member_of(v, "title"@, 1)),
        ) {
            (Some(id), Some(title)) => Some(PlanV { id, title }),
            _ => None,
        }
    }
}

/// Reads a [`Plan`].
pub fn read_plan(v: &Json) -> (r: Option<Plan>)
    ensures
        match r {
            Some(x) => plan_of(v@) == Some(x@),
            None => plan_of(v@) is None,
        },
{
    if !json::has_record_form(v, 2, 2) {
        return None;
    }
    let id = match json::as_text(json::member(v, "id", 0)) {
        Some(x) => x,
        None => {
            return None;
        },
    };
    let title = match json::read_opt_text(json::member(v, "title", 1)) {
        Some(x) => x,
        None => {
            return None;
        },
    };
    Some(Plan { id, title })
}

/// How a list of JSON values reads as a list of [`Plan`]: all of them or none.
pub open spec fn plan_list(a: Seq<JsonV>) -> Option<Seq<PlanV>>
    decreases a.len(),
{
    if a.len() == 0 {
        Some(Seq::empty())
    } else {
        match (plan_list(a.drop_last()), plan_of(a.last())) {
            (Some(l), Some(x)) => Some(l.push(x)),
            _ => None,
        }
    }
}

proof fn lemma_plan_list_prefix(a: Seq<JsonV>, i: int)
    requires
        0 <= i <= a.len(),
        plan_list(a.take(i)) is None,
    ensures
        plan_list(a) is None,
    decreases a.len() - i,
{
    if i < a.len() {
        assert(a.take(i + 1).drop_last() =~= a.take(i));
        lemma_plan_list_prefix(a, i + 1);
    } else {
        assert(a.take(i) =~= a);
    }
}

fn read_plan_list(a: &Vec<Json>) -> (r: Option<Vec<Plan>>)
    ensures
        match r {
            Some(l) => plan_list(json::items_view(a@)) == Some(plan_views(l@)),
            None => plan_list(json::items_view(a@)) is None,
        },
{
    let ghost all = json::items_view(a@);
    let mut out: Vec<Plan> = Vec::new();
    let mut i: usize = 0;
    proof {
        assert(all.take(0) =~= Seq::empty());
        assert(plan_views(out@) =~= Seq::empty());
    }
    while i < a.len()
        invariant
            i <= a@.len(),
            all == json::items_view(a@),
            plan_list(all.take(i as int)) == Some(plan_views(out@)),
        decreases a@.len() - i,
    {
        proof {
            assert(all.take(i + 1).drop_last() =~= all.take(i as int));
            assert(all.take(i + 1).last() == a@[i as int]@);
        }
        match read_plan(&a[i]) {
            Some(x) => {
                let ghost before = out@;
                out.push(x);
                proof {
                    assert(plan_views(out@) =~= plan_views(before).push(x@));
                }
            },
            None => {
                proof {
                    lemma_plan_list_prefix(all, i + 1);
                }
                return None;
            },
        }
        i = i + 1;
    }
    proof {
        assert(all.take(i as int) =~= all);
    }
    Some(out)
}

/// How a required list member reads.
pub open spec fn plan_list_member(m: Option<JsonV>) -> Option<Seq<PlanV>> {
    match m {
        Some(JsonV::Arr(a)) => plan_list(a),
        _ => None,
    }
}

fn read_plan_list_member(m: Option<&Json>) -> (r: Option<Vec<Plan>>)
    ensures
        match r {
            Some(l) => plan_list_member(json::opt_json(m)) == Some(plan_views(l@)),
            None => plan_list_member(json::opt_json(m)) is None,
        },
{
    match m {
        Some(Json::Arr(a)) => {
            proof {
                json::lemma_arr_view(*a);
            }
            read_plan_list(a)
        },
        _ => None,
    }
}
/// The reply to a request for plans.
pub struct PlansResponse {
    pub value: Vec<Plan>,
}

/// The model of [`PlansResponse`].
pub struct PlansResponseV {
    pub value: Seq<PlanV>,
}

impl View for PlansResponse {
    type V = PlansResponseV;

    open spec fn view(&self) -> PlansResponseV {
        PlansResponseV {
            value: plan_views(self.value@),
        }
    }
}

/// How a JSON value reads as a [`PlansResponse`]; nothing where it does not.
pub open spec fn plans_response_of(v: JsonV) -> Option<PlansResponseV> {
    if !json::record_form(v, 1, 1) {
        None
    } else {
        match plan_list_member(json::member_of(v, "value"@, 0)) {
            Some(value) => Some(PlansResponseV { value }),
            None => None,
        }
    }
}

/// Reads a [`PlansResponse`].
pub fn read_plans_response(v: &Json) -> (r: Option<PlansResponse>)
    ensures
        match r {
            Some(x) => plans_response_of(v@) == Some(x@),
            None => plans_response_of(v@) is None,
        },
{
    if !json::has_record_form(v, 1, 1) {
        return None;
    }
    let value = match read_plan_list_member(json::member(v, "value", 0)) {
        Some(x) => x,
        None => {
            return None;
        },
    };
    Some(PlansResponse { value })
}
/// A bucket as the service sends it.
pub struct Bucket {
    pub id: String,
    pub name: Option<String>,
    pub plan_id: Option<String>,
}

/// The model of [`Bucket`].
pub struct BucketV {
    pub id: Seq<char>,
    pub name: Option<Seq<char>>,
    pub plan_id: Option<Seq<char>>,
}

impl View for Bucket {
    type V = BucketV;

    open spec fn view(&self) -> BucketV {
        BucketV {
            id: self.id@,
            name: text::opt_text(self.name),
            plan_id: text::opt_text(self.plan_id),
        }
    }
}

/// A list of [`Bucket`] by their models.
pub open spec fn bucket_views(v: Seq<Bucket>) -> Seq<BucketV> {
    Seq::new(v.len(), |i: int| v[i]@)
}

/// How a JSON value reads as a [`Bucket`]; nothing where it does not.
pub open spec fn bucket_of(v: JsonV) -> Option<BucketV> {
    if !json::record_form(v, 3, 3) {
        None
    } else {
        match (
            json::str_of(json::member_of(v, "id"@, 0)),
            json::opt_text_member(json::member_of(v, "name"@, 1)),
            json::opt_text_member(json::member_of(v, "planId"@, 2)),
        ) {
            (Some(id), Some(name), Some(plan_id)) => Some(BucketV { id, name, plan_id }),
            _ => None,
        }
    }
}

/// Reads a [`Bucket`].
pub fn read_bucket(v: &Json) -> (r: Option<Bucket>)
    ensures
        match r {
            Some(x) => bucket_of(v@) == Some(x@),
            None => bucket_of(v@) is None,
        },
{
    if !json::has_record_form(v, 3, 3) {
        return None;
    }
    let id = match json::as_text(json::member(v, "id", 0)) {
        Some(x) => x,
        None => {
            return None;
        },
    };
    let name = match json::read_opt_text(json::member(v, "name", 1)) {
        Some(x) => x,
        None => {
            return None;
        },
    };
    let plan_id = match json::read_opt_text(json::member(v, "planId", 2)) {
        Some(x) => x,
        None => {
            return None;
        },
    };
    Some(Bucket { id, name, plan_id })
}

/// How a list of JSON values reads as a list of [`Bucket`]: all of them or none.
pub open spec fn bucket_list(a: Seq<JsonV>) -> Option<Seq<BucketV>>
    decreases a.len(),
{
    if a.len() == 0 {
        Some(Seq::empty())
    } else {
        match (bucket_list(a.drop_last()), bucket_of(a.last())) {
            (Some(l), Some(x)) => Some(l.push(x)),
            _ => None,
        }
    }
}

proof fn lemma_bucket_list_prefix(a: Seq<JsonV>, i: int)
    requires
        0 <= i <= a.len(),
        bucket_list(a.take(i)) is None,
    ensures
        bucket_list(a) is None,
    decreases a.len() - i,
{
    if i < a.len() {
        assert(a.take(i + 1).drop_last() =~= a.take(i));
        lemma_bucket_list_prefix(a, i + 1);
    } else {
        assert(a.take(i) =~= a);
    }
}

fn read_bucket_list(a: &Vec<Json>) -> (r: Option<Vec<Bucket>>)
    ensures
        match r {
            Some(l) => bucket_list(json::items_view(a@)) == Some(bucket_views(l@)),
            None => bucket_list(json::items_view(a@)) is None,
        },
{
    let ghost all = json::items_view(a@);
    let mut out: Vec<Bucket> = Vec::new();
    let mut i: usize = 0;
    proof {
        assert(all.take(0) =~= Seq::empty());
        assert(bucket_views(out@) =~= Seq::empty());
    }
    while i < a.len()
        invariant
            i <= a@.len(),
            all == json::items_view(a@),
            bucket_list(all.take(i as int)) == Some(bucket_views(out@)),
        decreases a@.len() - i,
    {
        proof {
            assert(all.take(i + 1).drop_last() =~= all.take(i as int));
            assert(all.take(i + 1).last() == a@[i as int]@);
        }
        match read_bucket(&a[i]) {
            Some(x) => {
                let ghost before = out@;
                out.push(x);
                proof {
                    assert(bucket_views(out@) =~= bucket_views(before).push(x@));
                }
            },
            None => {
                proof {
                    lemma_bucket_list_prefix(all, i + 1);
                }
                return None;
            },
        }
        i = i + 1;
    }
    proof {
        assert(all.take(i as int) =~= all);
    }
    Some(out)
}

/// How a required list member reads.
pub open spec fn bucket_list_member(m: Option<JsonV>) -> Option<Seq<BucketV>> {
    match m {
        Some(JsonV::Arr(a)) => bucket_list(a),
        _ => None,
    }
}

fn read_bucket_list_member(m: Option<&Json>) -> (r: Option<Vec<Bucket>>)
    ensures
        match r {
            Some(l) => bucket_list_member(json::opt_json(m)) == Some(bucket_views(l@)),
            None => bucket_list_member(json::opt_json(m)) is None,
        },
{
    match m {
        Some(Json::Arr(a)) => {
            proof {
                json::lemma_arr_view(*a);
            }
            read_bucket_list(a)
        },
        _ => None,
    }
}
/// The reply to a request for buckets.
pub struct BucketsResponse {
    pub value: Vec<Bucket>,
}

/// The model of [`BucketsResponse`].
pub struct BucketsResponseV {
    pub value: Seq<BucketV>,
}

impl View for BucketsResponse {
    type V = BucketsResponseV;

    open spec fn view(&self) -> BucketsResponseV {
        BucketsResponseV {
            value: bucket_views(self.value@),
        }
    }
}

/// How a JSON value reads as a [`BucketsResponse`]; nothing where it does not.
pub open spec fn buckets_response_of(v: JsonV) -> Option<BucketsResponseV> {
    if !json::record_form(v, 1, 1) {
        None
    } else {
        match bucket_list_member(json::member_of(v, "value"@, 0)) {
            Some(value) => Some(BucketsResponseV { value }),
            None => None,
        }
    }
}

/// Reads a [`BucketsResponse`].
pub fn read_buckets_response(v: &Json) -> (r: Option<BucketsResponse>)
    ensures
        match r {
            Some(x) => buckets_response_of(v@) == Some(x@),
            None => buckets_response_of(v@) is None,
        },
{
    if !json::has_record_form(v, 1, 1) {
        return None;
    }
    let value = match read_bucket_list_member(json::member(v, "value", 0)) {
        Some(x) => x,
        None => {
            return None;
        },
    };
    Some(BucketsResponse { value })
}
/// A task of a plan as the service sends it.
pub struct PlannerTask {
    pub id: String,
    pub plan_id: Option<String>,
    pub bucket_id: Option<String>,
    pub title: Option<String>,
    pub percent_complete: Option<i32>,
    pub priority: Option<i32>,
    pub due_date_time: Option<String>,
    pub etag: Option<String>,
}

/// The model of [`PlannerTask`].
pub struct PlannerTaskV {
    pub id: Seq<char>,
    pub plan_id: Option<Seq<char>>,
    pub bucket_id: Option<Seq<char>>,
    pub title: Option<Seq<char>>,
    pub percent_complete: Option<i32>,
    pub priority: Option<i32>,
    pub due_date_time: Option<Seq<char>>,
    pub etag: Option<Seq<char>>,
}

impl View for PlannerTask {
    type V = PlannerTaskV;

    open spec fn view(&self) -> PlannerTaskV {
        PlannerTaskV {
            id: self.id@,
            plan_id: text::opt_text(self.plan_id),
            bucket_id: text::opt_text(self.bucket_id),
            title: text::opt_text(self.title),
            percent_complete: self.percent_complete,
            priority: self.priority,
            due_date_time: text::opt_text(self.due_date_time),
            etag: text::opt_text(self.etag),
        }
    }
}

/// A list of [`PlannerTask`] by their models.
pub open spec fn planner_task_views(v: Seq<PlannerTask>) -> Seq<PlannerTaskV> {
    Seq::new(v.len(), |i: int| v[i]@)
}

/// How a JSON value reads as a [`PlannerTask`]; nothing where it does not.
pub open spec fn planner_task_of(v: JsonV) -> Option<PlannerTaskV> {
    if !json::record_form(v, 8, 8) {
        None
    } else {
        match (
            json::str_of(json::member_of(v, "id"@, 0)),
            json::opt_text_member(json::member_of(v, "planId"@, 1)),
            json::opt_text_member(json::member_of(v, "bucketId"@, 2)),
            json::opt_text_member(json::member_of(v, "title"@, 3)),
            json::opt_i32_member(json::member_of(v, "percentComplete"@, 4)),
            json::opt_i32_member(json::member_of(v, "priority"@, 5)),
            json::opt_text_member(json::member_of(v, "dueDateTime"@, 6)),
            json::opt_text_member(json::member_of(v, "@odata.etag"@, 7)),
        ) {
            (
                Some(id),
                Some(plan_id),
                Some(bucket_id),
                Some(title),
                Some(percent_complete),
                Some(priority),
                Some(due_date_time),
                Some(etag),
            ) => Some(
                PlannerTaskV {
                    id,
                    plan_id,
                    bucket_id,
                    title,
                    percent_complete,
                    priority,
                    due_date_time,
                    etag,
                },
            ),
            _ => None,
        }
    }
}

/// Reads a [`PlannerTask`].
pub fn read_planner_task(v: &Json) -> (r: Option<PlannerTask>)
    ensures
        match r {
            Some(x) => planner_task_of(v@) == Some(x@),
            None => planner_task_of(v@) is None,
        },
{
    if !json::has_record_form(v, 8, 8) {
        return None;
    }
    let id = match json::as_text(json::member(v, "id", 0)) {
        Some(x) => x,
        None => {
            return None;
        },
    };
    let plan_id = match json::read_opt_text(json::member(v, "planId", 1)) {
        Some(x) => x,
        None => {
            return None;
        },
    };
    let bucket_id = match json::read_opt_text(json::member(v, "bucketId", 2)) {
        Some(x) => x,
        None => {
            return None;
        },
    };
    let title = match json::read_opt_text(json::member(v, "title", 3)) {
        Some(x) => x,
        None => {
            return None;
        },
    };
    let percent_complete = match json::read_opt_i32(json::member(v, "percentComplete", 4)) {
        Some(x) => x,
        None => {
            return None;
        },
    };
    let priority = match json::read_opt_i32(json::member(v, "priority", 5)) {
        Some(x) => x,
        None => {
            return None;
        },
    };
    let due_date_time = match json::read_opt_text(json::member(v, "dueDateTime", 6)) {
        Some(x) => x,
        None => {
            return None;
        },
    };
    let etag = match json::read_opt_text(json::member(v, "@odata.etag", 7)) {
        Some(x) => x,
        None => {
            return None;
        },
    };
    Some(
        PlannerTask {
            id,
            plan_id,
            bucket_id,
            title,
            percent_complete,
            priority,
            due_date_time,
            etag,
        },
    )
}

/// How a list of JSON values reads as a list of [`PlannerTask`]: all of them or none.
pub open spec fn planner_task_list(a: Seq<JsonV>) -> Option<Seq<PlannerTaskV>>
    decreases a.len(),
{
    if a.len() == 0 {
        Some(Seq::empty())
    } else {
        match (planner_task_list(a.drop_last()), planner_task_of(a.last())) {
            (Some(l), Some(x)) => Some(l.push(x)),
            _ => None,
        }
    }
}

proof fn lemma_planner_task_list_prefix(a: Seq<JsonV>, i: int)
    requires
        0 <= i <= a.len(),
        planner_task_list(a.take(i)) is None,
    ensures
        planner_task_list(a) is None,
    decreases a.len() - i,
{
    if i < a.len() {
        assert(a.take(i + 1).drop_last() =~= a.take(i));
        lemma_planner_task_list_prefix(a, i + 1);
    } else {
        assert(a.take(i) =~= a);
    }
}

fn read_planner_task_list(a: &Vec<Json>) -> (r: Option<Vec<PlannerTask>>)
    ensures
        match r {
            Some(l) => planner_task_list(json::items_view(a@)) == Some(planner_task_views(l@)),
            None => planner_task_list(json::items_view(a@)) is None,
        },
{
    let ghost all = json::items_view(a@);
    let mut out: Vec<PlannerTask> = Vec::new();
    let mut i: usize = 0;
    proof {
        assert(all.take(0) =~= Seq::empty());
        assert(planner_task_views(out@) =~= Seq::empty());
    }
    while i < a.len()
        invariant
            i <= a@.len(),
            all == json::items_view(a@),
            planner_task_list(all.take(i as int)) == Some(planner_task_views(out@)),
        decreases a@.len() - i,
    {
        proof {
            assert(all.take(i + 1).drop_last() =~= all.take(i as int));
            assert(all.take(i + 1).last() == a@[i as int]@);
        }
        match read_planner_task(&a[i]) {
            Some(x) => {
                let ghost before = out@;
                out.push(x);
                proof {
                    assert(planner_task_views(out@) =~= planner_task_views(before).push(x@));
                }
            },
            None => {
                proof {
                    lemma_planner_task_list_prefix(all, i + 1);
                }
                return None;
            },
        }
        i = i + 1;
    }
    proof {
        assert(all.take(i as int) =~= all);
    }
    Some(out)
}

/// How a required list member reads.
pub open spec fn planner_task_list_member(m: Option<JsonV>) -> Option<Seq<PlannerTaskV>> {
    match m {
        Some(JsonV::Arr(a)) => planner_task_list(a),
        _ => None,
    }
}

fn read_planner_task_list_member(m: Option<&Json>) -> (r: Option<Vec<PlannerTask>>)
    ensures
        match r {
            Some(l) => planner_task_list_member(json::opt_json(m)) == Some(planner_task_views(l@)),
            None => planner_task_list_member(json::opt_json(m)) is None,
        },
{
    match m {
        Some(Json::Arr(a)) => {
            proof {
                json::lemma_arr_view(*a);
            }
            read_planner_task_list(a)
        },
        _ => None,
    }
}
/// The reply to a request for tasks.
pub struct TasksResponse {
    pub value: Vec<PlannerTask>,
}

/// The model of [`TasksResponse`].
pub struct TasksResponseV {
    pub value: Seq<PlannerTaskV>,
}

impl View for TasksResponse {
    type V = TasksResponseV;

    open spec fn view(&self) -> TasksResponseV {
        TasksResponseV {
            value: planner_task_views(self.value@),
        }
    }
}

/// How a JSON value reads as a [`TasksResponse`]; nothing where it does not.
pub open spec fn tasks_response_of(v: JsonV) -> Option<TasksResponseV> {
    if !json::record_form(v, 1, 1) {
        None
    } else {
        match planner_task_list_member(json::member_of(v, "value"@, 0)) {
            Some(value) => Some(TasksResponseV { value }),
            None => None,
        }
    }
}

/// Reads a [`TasksResponse`].
pub fn read_tasks_response(v: &Json) -> (r: Option<TasksResponse>)
    ensures
        match r {
            Some(x) => tasks_response_of(v@) == Some(x@),
            None => tasks_response_of(v@) is None,
        },
{
    if !json::has_record_form(v, 1, 1) {
        return None;
    }
    let value = match read_planner_task_list_member(json::member(v, "value", 0)) {
        Some(x) => x,
        None => {
            return None;
        },
    };
    Some(TasksResponse { value })
}
/// What is shown of a plan.
pub struct PlanInfo {
    pub id: String,
    pub title: String,
}

/// The model of [`PlanInfo`].
pub struct PlanInfoV {
    pub id: Seq<char>,
    pub title: Seq<char>,
}

impl View for PlanInfo {
    type V = PlanInfoV;

    open spec fn view(&self) -> PlanInfoV {
        PlanInfoV {
            id: self.id@,
            title: self.title@,
        }
    }
}
/// A list of [`PlanInfo`] by their models.
pub open spec fn plan_info_views(v: Seq<PlanInfo>) -> Seq<PlanInfoV> {
    Seq::new(v.len(), |i: int| v[i]@)
}
/// What is shown of a bucket.
pub struct BucketInfo {
    pub id: String,
    pub plan_id: String,
    pub name: String,
}

/// The model of [`BucketInfo`].
pub struct BucketInfoV {
    pub id: Seq<char>,
    pub plan_id: Seq<char>,
    pub name: Seq<char>,
}

impl View for BucketInfo {
    type V = BucketInfoV;

    open spec fn view(&self) -> BucketInfoV {
        BucketInfoV {
            id: self.id@,
            plan_id: self.plan_id@,
            name: self.name@,
        }
    }
}
/// A list of [`BucketInfo`] by their models.
pub open spec fn bucket_info_views(v: Seq<BucketInfo>) -> Seq<BucketInfoV> {
    Seq::new(v.len(), |i: int| v[i]@)
}
/// What is shown of a task of a plan.
pub struct PlannerTaskInfo {
    pub id: String,
    pub plan_id: String,
    pub bucket_id: String,
    pub title: String,
    pub percent_complete: i32,
    /// True at a hundred percent.
    pub completed: bool,
    pub priority: Option<i32>,
    pub due: Option<String>,
    /// What a change of the task has to name.
    pub etag: String,
}

/// The model of [`PlannerTaskInfo`].
pub struct PlannerTaskInfoV {
    pub id: Seq<char>,
    pub plan_id: Seq<char>,
    pub bucket_id: Seq<char>,
    pub title: Seq<char>,
    pub percent_complete: i32,
    pub completed: bool,
    pub priority: Option<i32>,
    pub due: Option<Seq<char>>,
    pub etag: Seq<char>,
}

impl View for PlannerTaskInfo {
    type V = PlannerTaskInfoV;

    open spec fn view(&self) -> PlannerTaskInfoV {
        PlannerTaskInfoV {
            id: self.id@,
            plan_id: self.plan_id@,
            bucket_id: self.bucket_id@,
            title: self.title@,
            percent_complete: self.percent_complete,
            completed: self.completed,
            priority: self.priority,
            due: text::opt_text(self.due),
            etag: self.etag@,
        }
    }
}
/// A list of [`PlannerTaskInfo`] by their models.
pub open spec fn planner_task_info_views(v: Seq<PlannerTaskInfo>) -> Seq<PlannerTaskInfoV> {
    Seq::new(v.len(), |i: int| v[i]@)
}

/// What is shown of a plan; without a title, its id.
pub open spec fn plan_row(p: PlanV) -> PlanInfoV {
    PlanInfoV { id: p.id, title: teams::or_text(calendar::unless_blank(p.title), p.id) }
}

/// What is shown of a plan.
pub fn plan_info(p: &Plan) -> (r: PlanInfo)
    ensures
        r@ == plan_row(p@),
{
    let title = match calendar::filter_blank(&p.title) {
        Some(t) => t,
        None => p.id.clone(),
    };
    PlanInfo { id: p.id.clone(), title }
}

/// What is shown of a bucket; without a name, its id.
pub open spec fn bucket_row(b: BucketV) -> BucketInfoV {
    BucketInfoV {
        id: b.id,
        plan_id: teams::or_text(b.plan_id, Seq::empty()),
        name: teams::or_text(calendar::unless_blank(b.name), b.id),
    }
}

fn or_nothing(o: &Option<String>) -> (r: String)
    ensures
        r@ == teams::or_text(text::opt_text(*o), Seq::empty()),
{
    proof {
        reveal_strlit("");
        assert(""@ =~= Seq::empty());
    }
    teams::text_or(o, "")
}

/// What is shown of a bucket.
pub fn bucket_info(b: &Bucket) -> (r: BucketInfo)
    ensures
        r@ == bucket_row(b@),
{
    let name = match calendar::filter_blank(&b.name) {
        Some(n) => n,
        None => b.id.clone(),
    };
    BucketInfo { id: b.id.clone(), plan_id: or_nothing(&b.plan_id), name }
}

/// What is shown of a task: nothing is done of it unless it says so, and all of
/// it at a hundred percent.
pub open spec fn planner_row(t: PlannerTaskV) -> PlannerTaskInfoV {
    let percent = match t.percent_complete {
        Some(p) => p,
        None => 0i32,
    };
    PlannerTaskInfoV {
        id: t.id,
        plan_id: teams::or_text(t.plan_id, Seq::empty()),
        bucket_id: teams::or_text(t.bucket_id, Seq::empty()),
        title: teams::or_text(t.title, Seq::empty()),
        percent_complete: percent,
        completed: percent == 100,
        priority: t.priority,
        due: t.due_date_time,
        etag: teams::or_text(t.etag, Seq::empty()),
    }
}

/// What is shown of a task.
pub fn task_info(t: &PlannerTask) -> (r: PlannerTaskInfo)
    ensures
        r@ == planner_row(t@),
{
    let percent: i32 = match t.percent_complete {
        Some(p) => p,
        None => 0,
    };
    PlannerTaskInfo {
        id: t.id.clone(),
        plan_id: or_nothing(&t.plan_id),
        bucket_id: or_nothing(&t.bucket_id),
        title: or_nothing(&t.title),
        percent_complete: percent,
        completed: percent == 100,
        priority: t.priority,
        due: text::copy_opt(&t.due_date_time),
        etag: or_nothing(&t.etag),
    }
}
/// What is shown of the plans, in order.
pub open spec fn plan_rows(v: Seq<PlanV>) -> Seq<PlanInfoV> {
    Seq::new(v.len(), |i: int| plan_row(v[i]))
}

/// What is shown of the plans, in order.
pub fn plan_infos(v: &Vec<Plan>) -> (r: Vec<PlanInfo>)
    ensures
        plan_info_views(r@) == plan_rows(plan_views(v@)),
{
    let mut out: Vec<PlanInfo> = Vec::new();
    let mut i: usize = 0;
    while i < v.len()
        invariant
            i <= v@.len(),
            out@.len() == i,
            forall|j: int| 0 <= j < i ==> (#[trigger] out@[j])@ == plan_row(v@[j]@),
        decreases v@.len() - i,
    {
        out.push(plan_info(&v[i]));
        i = i + 1;
    }
    proof {
        assert(plan_info_views(out@) =~= plan_rows(plan_views(v@)));
    }
    out
}
/// What is shown of the buckets, in order.
pub open spec fn bucket_rows(v: Seq<BucketV>) -> Seq<BucketInfoV> {
    Seq::new(v.len(), |i: int| bucket_row(v[i]))
}

/// What is shown of the buckets, in order.
pub fn bucket_infos(v: &Vec<Bucket>) -> (r: Vec<BucketInfo>)
    ensures
        bucket_info_views(r@) == bucket_rows(bucket_views(v@)),
{
    let mut out: Vec<BucketInfo> = Vec::new();
    let mut i: usize = 0;
    while i < v.len()
        invariant
            i <= v@.len(),
            out@.len() == i,
            forall|j: int| 0 <= j < i ==> (#[trigger] out@[j])@ == bucket_row(v@[j]@),
        decreases v@.len() - i,
    {
        out.push(bucket_info(&v[i]));
        i = i + 1;
    }
    proof {
        assert(bucket_info_views(out@) =~= bucket_rows(bucket_views(v@)));
    }
    out
}
/// What is shown of the tasks, in order.
pub open spec fn planner_rows(v: Seq<PlannerTaskV>) -> Seq<PlannerTaskInfoV> {
    Seq::new(v.len(), |i: int| planner_row(v[i]))
}

/// What is shown of the tasks, in order.
pub fn task_infos(v: &Vec<PlannerTask>) -> (r: Vec<PlannerTaskInfo>)
    ensures
        planner_task_info_views(r@) == planner_rows(planner_task_views(v@)),
{
    let mut out: Vec<PlannerTaskInfo> = Vec::new();
    let mut i: usize = 0;
    while i < v.len()
        invariant
            i <= v@.len(),
            out@.len() == i,
            forall|j: int| 0 <= j < i ==> (#[trigger] out@[j])@ == planner_row(v@[j]@),
        decreases v@.len() - i,
    {
        out.push(task_info(&v[i]));
        i = i + 1;
    }
    proof {
        assert(planner_task_info_views(out@) =~= planner_rows(planner_task_views(v@)));
    }
    out
}
/// The plans of a team, by the JSON value of the reply; nothing where it is of another form.
pub open spec fn plans_of(v: JsonV) -> Option<Seq<PlanInfoV>> {
    match plans_response_of(v) {
        Some(x) => Some(plan_rows(x.value)),
        None => None,
    }
}

/// The plans of a team, by the JSON value of the reply.
pub fn read_plans(v: &Json) -> (r: Option<Vec<PlanInfo>>)
    ensures
        match r {
            Some(l) => plans_of(v@) == Some(plan_info_views(l@)),
            None => plans_of(v@) is None,
        },
{
    match read_plans_response(v) {
        Some(x) => Some(plan_infos(&x.value)),
        None => None,
    }
}

/// The plans of a team, by the body of the reply.
pub fn parse_plans(body: &[u8]) -> (r: Result<Vec<PlanInfo>, String>)
    ensures
        match r {
            Ok(l) => json::json_bytes(body@) matches Some(v) && plans_of(v) == Some(
                plan_info_views(l@),
            ),
            Err(e) => (json::json_bytes(body@) matches Some(v) ==> plans_of(v) is None) && e@
                == "Failed to parse planner plans response"@,
        },
{
    if let Some(v) = json::parse_json_bytes(body) {
        if let Some(l) = read_plans(&v) {
            return Ok(l);
        }
    }
    Err("Failed to parse planner plans response".to_string())
}
/// The buckets of a plan, by the JSON value of the reply; nothing where it is of another form.
pub open spec fn buckets_of(v: JsonV) -> Option<Seq<BucketInfoV>> {
    match buckets_response_of(v) {
        Some(x) => Some(bucket_rows(x.value)),
        None => None,
    }
}

/// The buckets of a plan, by the JSON value of the reply.
pub fn read_buckets(v: &Json) -> (r: Option<Vec<BucketInfo>>)
    ensures
        match r {
            Some(l) => buckets_of(v@) == Some(bucket_info_views(l@)),
            None => buckets_of(v@) is None,
        },
{
    match read_buckets_response(v) {
        Some(x) => Some(bucket_infos(&x.value)),
        None => None,
    }
}

/// The buckets of a plan, by the body of the reply.
pub fn parse_buckets(body: &[u8]) -> (r: Result<Vec<BucketInfo>, String>)
    ensures
        match r {
            Ok(l) => json::json_bytes(body@) matches Some(v) && buckets_of(v) == Some(
                bucket_info_views(l@),
            ),
            Err(e) => (json::json_bytes(body@) matches Some(v) ==> buckets_of(v) is None) && e@
                == "Failed to parse planner buckets response"@,
        },
{
    if let Some(v) = json::parse_json_bytes(body) {
        if let Some(l) = read_buckets(&v) {
            return Ok(l);
        }
    }
    Err("Failed to parse planner buckets response".to_string())
}
/// The tasks of a plan, by the JSON value of the reply; nothing where it is of another form.
pub open spec fn tasks_of(v: JsonV) -> Option<Seq<PlannerTaskInfoV>> {
    match tasks_response_of(v) {
        Some(x) => Some(planner_rows(x.value)),
        None => None,
    }
}

/// The tasks of a plan, by the JSON value of the reply.
pub fn read_tasks(v: &Json) -> (r: Option<Vec<PlannerTaskInfo>>)
    ensures
        match r {
            Some(l) => tasks_of(v@) == Some(planner_task_info_views(l@)),
            None => tasks_of(v@) is None,
        },
{
    match read_tasks_response(v) {
        Some(x) => Some(task_infos(&x.value)),
        None => None,
    }
}

/// The tasks of a plan, by the body of the reply.
pub fn parse_tasks(body: &[u8]) -> (r: Result<Vec<PlannerTaskInfo>, String>)
    ensures
        match r {
            Ok(l) => json::json_bytes(body@) matches Some(v) && tasks_of(v) == Some(
                planner_task_info_views(l@),
            ),
            Err(e) => (json::json_bytes(body@) matches Some(v) ==> tasks_of(v) is None) && e@
                == "Failed to parse planner tasks response"@,
        },
{
    if let Some(v) = json::parse_json_bytes(body) {
        if let Some(l) = read_tasks(&v) {
            return Ok(l);
        }
    }
    Err("Failed to parse planner tasks response".to_string())
}
/// One task, by the JSON value of the reply; nothing where it is of another form.
pub open spec fn task_of(v: JsonV) -> Option<PlannerTaskInfoV> {
    match planner_task_of(v) {
        Some(x) => Some(planner_row(x)),
        None => None,
    }
}

/// One task, by the JSON value of the reply.
pub fn read_task(v: &Json) -> (r: Option<PlannerTaskInfo>)
    ensures
        match r {
            Some(x) => task_of(v@) == Some(x@),
            None => task_of(v@) is None,
        },
{
    match read_planner_task(v) {
        Some(x) => Some(task_info(&x)),
        None => None,
    }
}

/// One task, by the body of the reply.
pub fn parse_task(body: &[u8]) -> (r: Result<PlannerTaskInfo, String>)
    ensures
        match r {
            Ok(x) => json::json_bytes(body@) matches Some(v) && task_of(v) == Some(x@),
            Err(e) => (json::json_bytes(body@) matches Some(v) ==> task_of(v) is None) && e@
                == "Failed to parse planner task response"@,
        },
{
    if let Some(v) = json::parse_json_bytes(body) {
        if let Some(x) = read_task(&v) {
            return Ok(x);
        }
    }
    Err("Failed to parse planner task response".to_string())
}

/// The path of a team's plans; the error is the text to show.
pub fn plans_path(group_id: &str) -> (r: Result<String, String>)
    ensures
        match r {
            Ok(p) => web::id_error("group_id"@, group_id@) is None && p@ == "/groups/"@ + group_id@
                + "/planner/plans"@,
            Err(e) => web::id_error("group_id"@, group_id@) == Some(e@),
        },
{
    match web::check_id("group_id", group_id) {
        Ok(_) => Ok(text::join3("/groups/", group_id, "/planner/plans")),
        Err(e) => Err(e),
    }
}

/// The path of a plan's buckets; the error is the text to show.
pub fn buckets_path(plan_id: &str) -> (r: Result<String, String>)
    ensures
        match r {
            Ok(p) => web::id_error("plan_id"@, plan_id@) is None && p@ == "/planner/plans/"@
                + plan_id@ + "/buckets"@,
            Err(e) => web::id_error("plan_id"@, plan_id@) == Some(e@),
        },
{
    match web::check_id("plan_id", plan_id) {
        Ok(_) => Ok(text::join3("/planner/plans/", plan_id, "/buckets")),
        Err(e) => Err(e),
    }
}

/// The path of a plan's tasks; the error is the text to show.
pub fn tasks_path(plan_id: &str, limit: usize) -> (r: Result<String, String>)
    ensures
        match r {
            Ok(p) => web::id_error("plan_id"@, plan_id@) is None && p@ == "/planner/plans/"@
                + plan_id@ + "/tasks?$top="@ + text::decimal(limit as nat),
            Err(e) => web::id_error("plan_id"@, plan_id@) == Some(e@),
        },
{
    match web::check_id("plan_id", plan_id) {
        Ok(_) => {
            let mut s = text::join3("/planner/plans/", plan_id, "/tasks?$top=");
            s.append(text::to_decimal(limit as u64).as_str());
            Ok(s)
        },
        Err(e) => Err(e),
    }
}

/// The path of a task; the error is the text to show.
pub fn task_path(task_id: &str) -> (r: Result<String, String>)
    ensures
        match r {
            Ok(p) => web::id_error("task_id"@, task_id@) is None && p@ == "/planner/tasks/"@
                + task_id@,
            Err(e) => web::id_error("task_id"@, task_id@) == Some(e@),
        },
{
    match web::check_id("task_id", task_id) {
        Ok(_) => Ok(text::join2("/planner/tasks/", task_id)),
        Err(e) => Err(e),
    }
}

/// Why a tag cannot stand in a header; nothing of one that can.
pub open spec fn etag_error(etag: Seq<char>) -> Option<Seq<char>> {
    if text::blank(etag) {
        Some("empty etag"@)
    } else if etag.contains('\r') || etag.contains('\n') {
        Some("etag must not contain CR or LF"@)
    } else {
        None
    }
}

/// Refuses tags that would not be one line of a header.
pub fn check_etag(etag: &str) -> (r: Result<(), String>)
    ensures
        match r {
            Ok(_) => etag_error(etag@) is None,
            Err(e) => etag_error(etag@) == Some(e@),
        },
{
    if text::is_blank(etag) {
        return Err("empty etag".to_string());
    }
    if text::contains_char(etag, '\r') || text::contains_char(etag, '\n') {
        return Err("etag must not contain CR or LF".to_string());
    }
    Ok(())
}

/// The body that completes a task or opens it again.
pub open spec fn completion(complete: bool) -> JsonV {
    FieldsV::new().num(
        "percentComplete"@,
        if complete {
            100
        } else {
            0
        },
    ).obj()
}

/// The body that completes a task or opens it again.
pub fn set_complete_body(complete: bool) -> (r: Json)
    ensures
        r@ == completion(complete),
{
    let mut o = Fields::new();
    if complete {
        o.num("percentComplete", 100);
    } else {
        o.num("percentComplete", 0);
    }
    o.obj()
}

/// Why a task cannot be created.
pub open spec fn create_error(
    plan_id: Seq<char>,
    bucket_id: Seq<char>,
    title: Seq<char>,
) -> Option<Seq<char>> {
    teams::first_error(
        web::id_error("plan_id"@, plan_id),
        teams::first_error(
            web::id_error("bucket_id"@, bucket_id),
            if text::blank(title) {
                Some("empty title"@)
            } else {
                None
            },
        ),
    )
}

/// The body that creates a task; the error is the text to show.
pub fn create_task_body(plan_id: &str, bucket_id: &str, title: &str) -> (r: Result<Json, String>)
    ensures
        match r {
            Ok(b) => create_error(plan_id@, bucket_id@, title@) is None
                && b@ == FieldsV::new().text(
                "planId"@,
                plan_id@,
            ).text("bucketId"@, bucket_id@).text("title"@, title@).obj(),
            Err(e) => create_error(plan_id@, bucket_id@, title@) == Some(e@),
        },
{
    match web::check_id("plan_id", plan_id) {
        Ok(_) => {},
        Err(e) => {
            return Err(e);
        },
    }
    match web::check_id("bucket_id", bucket_id) {
        Ok(_) => {},
        Err(e) => {
            return Err(e);
        },
    }
    if text::is_blank(title) {
        return Err("empty title".to_string());
    }
    let mut o = Fields::new();
    o.text("planId", plan_id);
    o.text("bucketId", bucket_id);
    o.text("title", title);
    Ok(o.obj())
}

/// The change that completes a task or opens it again; the error is the text to
/// show.
pub fn set_task_complete_data(task_id: &str, etag: &str, complete: bool) -> (r: Result<
    teams::GraphPost,
    String,
>)
    ensures
        match r {
            Ok(q) => web::id_error("task_id"@, task_id@) is None && etag_error(etag@) is None
                && q.path@ == "/planner/tasks/"@ + task_id@ && q.body@ == completion(complete),
            Err(e) => teams::first_error(
                web::id_error("task_id"@, task_id@),
                etag_error(etag@),
            ) == Some(e@),
        },
{
    let path = match task_path(task_id) {
        Ok(p) => p,
        Err(e) => {
            return Err(e);
        },
    };
    match check_etag(etag) {
        Ok(_) => Ok(teams::GraphPost { path, body: set_complete_body(complete) }),
        Err(e) => Err(e),
    }
}

/// True of the white space of ASCII.
pub open spec fn is_ascii_space(b: u8) -> bool {
    b == 9 || b == 10 || b == 12 || b == 13 || b == 32
}

/// True of a reply without content: the task is to be read again.
pub fn is_empty_reply(body: &[u8]) -> (r: bool)
    ensures
        r == forall|i: int| 0 <= i < body@.len() ==> is_ascii_space(#[trigger] body@[i]),
{
    let mut i: usize = 0;
    while i < body.len()
        invariant
            i <= body@.len(),
            forall|j: int| 0 <= j < i ==> is_ascii_space(#[trigger] body@[j]),
        decreases body@.len() - i,
    {
        let b: u8 = body[i];
        if !(b == 9 || b == 10 || b == 12 || b == 13 || b == 32) {
            assert(!is_ascii_space(body@[i as int]));
            return false;
        }
        i = i + 1;
    }
    true
}

// -- What is read --

/// What is read of a [`Plan`] stands in the members of these names, and it is read
/// where they hold what they should.
pub proof fn law_plan_reads_its_members(v: JsonV)
    requires
        v is Obj,
    ensures
        match plan_of(v) {
            Some(x) => {
                &&& json::str_of(json::get_of(v, "id"@)) == Some(x.id)
                &&& x.title == json::str_of(json::get_of(v, "title"@))
            },
            None => !(json::str_of(json::get_of(v, "id"@)) is Some
                && json::opt_text_member(json::get_of(v, "title"@)) is Some),
        },
{
}

// The entries of a list, in their order.
proof fn lemma_plan_list_entries(a: Seq<JsonV>)
    ensures
        plan_list(a) matches Some(l) ==> l.len() == a.len() && forall|i: int|
            0 <= i < a.len() ==> plan_of(a[i]) == Some(#[trigger] l[i]),
    decreases a.len(),
{
    if a.len() > 0 {
        lemma_plan_list_entries(a.drop_last());
        if let Some(l) = plan_list(a) {
            assert forall|i: int| 0 <= i < a.len() implies plan_of(a[i])
                == Some(#[trigger] l[i]) by {
                if i < a.len() - 1 {
                    let before = plan_list(a.drop_last())->0;
                    assert(l[i] == before[i]);
                    assert(a.drop_last()[i] == a[i]);
                }
            }
        }
    }
}

/// What is read of a [`PlansResponse`] stands in the members of these names, and it is read
/// where they hold what they should.
pub proof fn law_plans_response_reads_its_members(v: JsonV)
    requires
        v is Obj,
    ensures
        match plans_response_of(v) {
            Some(x) => {
                &&& (json::arr_of(json::get_of(v, "value"@)) matches Some(a)
                    && x.value.len() == a.len() && forall|i: int| 0 <= i < a.len()
                    ==> plan_of(a[i]) == Some(#[trigger] x.value[i]))
            },
            None => !(plan_list_member(json::get_of(v, "value"@)) is Some),
        },
{
    if let Some(JsonV::Arr(a)) = json::get_of(v, "value"@) {
        lemma_plan_list_entries(a);
    }
}

/// What is read of a [`Bucket`] stands in the members of these names, and it is read
/// where they hold what they should.
pub proof fn law_bucket_reads_its_members(v: JsonV)
    requires
        v is Obj,
    ensures
        match bucket_of(v) {
            Some(x) => {
                &&& json::str_of(json::get_of(v, "id"@)) == Some(x.id)
                &&& x.name == json::str_of(json::get_of(v, "name"@))
                &&& x.plan_id == json::str_of(json::get_of(v, "planId"@))
            },
            None => !(json::str_of(json::get_of(v, "id"@)) is Some
                && json::opt_text_member(json::get_of(v, "name"@)) is Some
                && json::opt_text_member(json::get_of(v, "planId"@)) is Some),
        },
{
}

// The entries of a list, in their order.
proof fn lemma_bucket_list_entries(a: Seq<JsonV>)
    ensures
        bucket_list(a) matches Some(l) ==> l.len() == a.len() && forall|i: int|
            0 <= i < a.len() ==> bucket_of(a[i]) == Some(#[trigger] l[i]),
    decreases a.len(),
{
    if a.len() > 0 {
        lemma_bucket_list_entries(a.drop_last());
        if let Some(l) = bucket_list(a) {
            assert forall|i: int| 0 <= i < a.len() implies bucket_of(a[i])
                == Some(#[trigger] l[i]) by {
                if i < a.len() - 1 {
                    let before = bucket_list(a.drop_last())->0;
                    assert(l[i] == before[i]);
                    assert(a.drop_last()[i] == a[i]);
                }
            }
        }
    }
}

/// What is read of a [`BucketsResponse`] stands in the members of these names, and it is read
/// where they hold what they should.
pub proof fn law_buckets_response_reads_its_members(v: JsonV)
    requires
        v is Obj,
    ensures
        match buckets_response_of(v) {
            Some(x) => {
                &&& (json::arr_of(json::get_of(v, "value"@)) matches Some(a)
                    && x.value.len() == a.len() && forall|i: int| 0 <= i < a.len()
                    ==> bucket_of(a[i]) == Some(#[trigger] x.value[i]))
            },
            None => !(bucket_list_member(json::get_of(v, "value"@)) is Some),
        },
{
    if let Some(JsonV::Arr(a)) = json::get_of(v, "value"@) {
        lemma_bucket_list_entries(a);
    }
}

/// What is read of a [`PlannerTask`] stands in the members of these names, and it is read
/// where they hold what they should.
pub proof fn law_planner_task_reads_its_members(v: JsonV)
    requires
        v is Obj,
    ensures
        match planner_task_of(v) {
            Some(x) => {
                &&& json::str_of(json::get_of(v, "id"@)) == Some(x.id)
                &&& x.plan_id == json::str_of(json::get_of(v, "planId"@))
                &&& x.bucket_id == json::str_of(json::get_of(v, "bucketId"@))
                &&& x.title == json::str_of(json::get_of(v, "title"@))
                &&& json::opt_i32_member(json::get_of(v, "percentComplete"@))
                    == Some(x.percent_complete)
                &&& json::opt_i32_member(json::get_of(v, "priority"@)) == Some(x.priority)
                &&& x.due_date_time == json::str_of(json::get_of(v, "dueDateTime"@))
                &&& x.etag == json::str_of(json::get_of(v, "@odata.etag"@))
            },
            None => !(json::str_of(json::get_of(v, "id"@)) is Some
                && json::opt_text_member(json::get_of(v, "planId"@)) is Some
                && json::opt_text_member(json::get_of(v, "bucketId"@)) is Some
                && json::opt_text_member(json::get_of(v, "title"@)) is Some
                && json::opt_i32_member(json::get_of(v, "percentComplete"@)) is Some
                && json::opt_i32_member(json::get_of(v, "priority"@)) is Some
                && json::opt_text_member(json::get_of(v, "dueDateTime"@)) is Some
                && json::opt_text_member(json::get_of(v, "@odata.etag"@)) is Some),
        },
{
}

// The entries of a list, in their order.
proof fn lemma_planner_task_list_entries(a: Seq<JsonV>)
    ensures
        planner_task_list(a) matches Some(l) ==> l.len() == a.len() && forall|i: int|
            0 <= i < a.len() ==> planner_task_of(a[i]) == Some(#[trigger] l[i]),
    decreases a.len(),
{
    if a.len() > 0 {
        lemma_planner_task_list_entries(a.drop_last());
        if let Some(l) = planner_task_list(a) {
            assert forall|i: int| 0 <= i < a.len() implies planner_task_of(a[i])
                == Some(#[trigger] l[i]) by {
                if i < a.len() - 1 {
                    let before = planner_task_list(a.drop_last())->0;
                    assert(l[i] == before[i]);
                    assert(a.drop_last()[i] == a[i]);
                }
            }
        }
    }
}

/// What is read of a [`TasksResponse`] stands in the members of these names, and it is read
/// where they hold what they should.
pub proof fn law_tasks_response_reads_its_members(v: JsonV)
    requires
        v is Obj,
    ensures
        match tasks_response_of(v) {
            Some(x) => {
                &&& (json::arr_of(json::get_of(v, "value"@)) matches Some(a)
                    && x.value.len() == a.len() && forall|i: int| 0 <= i < a.len()
                    ==> planner_task_of(a[i]) == Some(#[trigger] x.value[i]))
            },
            None => !(planner_task_list_member(json::get_of(v, "value"@)) is Some),
        },
{
    if let Some(JsonV::Arr(a)) = json::get_of(v, "value"@) {
        lemma_planner_task_list_entries(a);
    }
}

// -- What is listed and sent --

/// Plans and buckets go by their own names, else by their ids, in the order in which they
/// came.
pub proof fn law_plans_are_listed_as_they_came(p: Seq<PlanV>, b: Seq<BucketV>, i: int)
    ensures
        plan_rows(p).len() == p.len(),
        bucket_rows(b).len() == b.len(),
        0 <= i < p.len() ==> {
            &&& plan_rows(p)[i].id == p[i].id
            &&& p[i].title matches Some(t) ==> (!text::blank(t) ==> plan_rows(p)[i].title == t)
            &&& p[i].title matches Some(t) ==> (text::blank(t) ==> plan_rows(p)[i].title == p[i].id)
            &&& p[i].title is None ==> plan_rows(p)[i].title == p[i].id
        },
        0 <= i < b.len() ==> {
            &&& bucket_rows(b)[i].id == b[i].id
            &&& b[i].plan_id matches Some(t) ==> bucket_rows(b)[i].plan_id == t
            &&& b[i].name matches Some(t) ==> (!text::blank(t) ==> bucket_rows(b)[i].name == t)
            &&& b[i].name is None ==> bucket_rows(b)[i].name == b[i].id
        },
{
}

/// A task is done where, and only where, it is complete by a hundred percent; everything
/// else of it is shown as it is.
pub proof fn law_tasks_are_done_at_a_hundred(v: Seq<PlannerTaskV>, i: int)
    requires
        0 <= i < v.len(),
    ensures
        planner_rows(v).len() == v.len(),
        ({
            let t = v[i];
            let r = planner_rows(v)[i];
            &&& r.id == t.id
            &&& r.completed <==> t.percent_complete == Some(100i32)
            &&& t.percent_complete matches Some(p) ==> r.percent_complete == p
            &&& t.percent_complete is None ==> r.percent_complete == 0
            &&& t.plan_id matches Some(s) ==> r.plan_id == s
            &&& t.bucket_id matches Some(s) ==> r.bucket_id == s
            &&& t.title matches Some(s) ==> r.title == s
            &&& t.etag matches Some(s) ==> r.etag == s
            &&& r.priority == t.priority
            &&& r.due == t.due_date_time
        }),
{
}

/// A tag can be sent where it is not blank and holds no end of line.
pub proof fn law_tags_stand_on_one_line(etag: Seq<char>)
    ensures
        etag_error(etag) is None <==> !text::blank(etag) && !etag.contains('\r') && !etag.contains(
            '\n',
        ),
        text::blank(etag) ==> etag_error(etag) == Some("empty etag"@),
        !text::blank(etag) && etag_error(etag) is Some ==> etag_error(etag) == Some(
            "etag must not contain CR or LF"@,
        ),
{
}

/// A task is made where its plan and its bucket may stand in a path and it has a title.
pub proof fn law_what_a_task_needs(plan_id: Seq<char>, bucket_id: Seq<char>, title: Seq<char>)
    ensures
        create_error(plan_id, bucket_id, title) is None <==> web::id_error("plan_id"@, plan_id)
            is None && web::id_error("bucket_id"@, bucket_id) is None && !text::blank(title),
        web::id_error("plan_id"@, plan_id) is Some ==> create_error(plan_id, bucket_id, title)
            == web::id_error("plan_id"@, plan_id),
        web::id_error("plan_id"@, plan_id) is None && web::id_error("bucket_id"@, bucket_id) is None
            && text::blank(title) ==> create_error(plan_id, bucket_id, title) == Some(
            "empty title"@,
        ),
{
}

/// A task is completed by a hundred percent, and reopened by none.
pub proof fn law_completion_is_all_or_nothing(complete: bool)
    ensures
        ({
            let b = completion(complete);
            &&& complete ==> json::u64_of(json::get_of(b, "percentComplete"@)) == Some(100u64)
            &&& !complete ==> json::u64_of(json::get_of(b, "percentComplete"@)) == Some(0u64)
        }),
{
    broadcast use json::group_members;

    assert("percentComplete"@.len() == 15) by {
        reveal_strlit("percentComplete");
    }
}

/// The lists that are shown are those of the answers that were read.
pub proof fn law_lists_of_plans_are_read(v: JsonV)
    ensures
        plans_of(v) is Some <==> plans_response_of(v) is Some,
        plans_of(v) matches Some(l)
            ==> (plans_response_of(v) matches Some(x) && l == plan_rows(x.value)),
        buckets_of(v) is Some <==> buckets_response_of(v) is Some,
        buckets_of(v) matches Some(l)
            ==> (buckets_response_of(v) matches Some(x) && l == bucket_rows(x.value)),
        tasks_of(v) is Some <==> tasks_response_of(v) is Some,
        tasks_of(v) matches Some(l)
            ==> (tasks_response_of(v) matches Some(x) && l == planner_rows(x.value)),
        task_of(v) is Some <==> planner_task_of(v) is Some,
        task_of(v) matches Some(l) ==> (planner_task_of(v) matches Some(x) && l == planner_row(x)),
{
}

/// Blank bytes are the space, the tab, and the ends of lines and pages.
pub proof fn law_blank_bytes(b: u8)
    ensures
        is_ascii_space(b) <==> b == 32 || b == 9 || b == 10 || b == 12 || b == 13,
{
}

} // verus!
