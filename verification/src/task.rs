use vstd::prelude::*;

verus! {

// ---------------------------------------------------------------------------
// Mathematical models of the task shapes.
//
// Every executable type below has a view whose string fields are `Seq<char>`,
// so that contracts can speak about string contents rather than `String`
// values.
// ---------------------------------------------------------------------------

/// Model of a pending task creation, including its nested subtasks.
#[verifier::ext_equal]
pub struct CreatedTaskInfoView {
    pub queue: Seq<char>,
    pub summary: Seq<char>,
    pub parent: Option<Seq<char>>,
    pub description: Option<Seq<char>>,
    pub sprint: Seq<Seq<char>>,
    pub task_type: Option<Seq<char>>,
    pub priority: Option<Seq<char>>,
    pub followers: Seq<Seq<char>>,
    pub assignee: Option<Seq<char>>,
    pub author: Option<Seq<char>>,
    pub unique: Option<Seq<char>>,
    pub attachment_ids: Seq<Seq<char>>,
    pub subtasks: Seq<CreatedTaskInfoView>,
}

/// Model of the request body sent when creating a task (no subtasks).
#[verifier::ext_equal]
pub struct CreatedTaskBodyView {
    pub queue: Seq<char>,
    pub summary: Seq<char>,
    pub parent: Option<Seq<char>>,
    pub description: Option<Seq<char>>,
    pub sprint: Seq<Seq<char>>,
    pub task_type: Option<Seq<char>>,
    pub priority: Option<Seq<char>>,
    pub followers: Seq<Seq<char>>,
    pub assignee: Option<Seq<char>>,
    pub author: Option<Seq<char>>,
    pub unique: Option<Seq<char>>,
    pub attachment_ids: Seq<Seq<char>>,
}

/// Model of a pending task update.
#[verifier::ext_equal]
pub struct UpdatedTaskInfoView {
    pub issue_id: Seq<char>,
    pub summary: Option<Seq<char>>,
    pub parent: Option<Seq<char>>,
    pub description: Option<Seq<char>>,
    pub sprint: Option<Seq<char>>,
    pub task_type: Option<Seq<char>>,
    pub priority: Option<Seq<char>>,
    pub followers: Seq<Seq<char>>,
    pub attachment_ids: Seq<Seq<char>>,
    pub description_attachment_ids: Seq<Seq<char>>,
}

/// Model of the request body sent when updating a task.
#[verifier::ext_equal]
pub struct UpdatedTaskView {
    pub issue_id: Seq<char>,
    pub summary: Option<Seq<char>>,
    pub parent: Option<Seq<char>>,
    pub description: Option<Seq<char>>,
    pub sprint: Option<Seq<char>>,
    pub task_type: Option<Seq<char>>,
    pub priority: Option<Seq<char>>,
    pub followers: Seq<Seq<char>>,
    pub attachment_ids: Seq<Seq<char>>,
    pub description_attachment_ids: Seq<Seq<char>>,
}

// ---------------------------------------------------------------------------
// Executable types.
// ---------------------------------------------------------------------------

/// A task to be created in the tracker, together with the subtasks that are
/// materialized once it succeeds remotely. `queue` and `summary` are the
/// required fields; everything else is optional.
pub struct CreatedTaskInfo {
    pub queue: String,
    pub summary: String,
    pub parent: Option<String>,
    pub description: Option<String>,
    pub sprint: Vec<String>,
    pub task_type: Option<String>,
    pub priority: Option<String>,
    pub followers: Vec<String>,
    pub assignee: Option<String>,
    pub author: Option<String>,
    pub unique: Option<String>,
    pub attachment_ids: Vec<String>,
    pub subtasks: Vec<CreatedTaskInfo>,
}

/// The request body for a task creation call (a `CreatedTaskInfo` without its
/// subtasks).
pub struct CreatedTaskBody {
    pub queue: String,
    pub summary: String,
    pub parent: Option<String>,
    pub description: Option<String>,
    pub sprint: Vec<String>,
    pub task_type: Option<String>,
    pub priority: Option<String>,
    pub followers: Vec<String>,
    pub assignee: Option<String>,
    pub author: Option<String>,
    pub unique: Option<String>,
    pub attachment_ids: Vec<String>,
}

/// A pending task update: the issue to patch plus the patch fields, each of
/// which is optional.
pub struct UpdatedTaskInfo {
    pub issue_id: String,
    pub summary: Option<String>,
    pub parent: Option<String>,
    pub description: Option<String>,
    pub sprint: Option<String>,
    pub task_type: Option<String>,
    pub priority: Option<String>,
    pub followers: Vec<String>,
    pub attachment_ids: Vec<String>,
    pub description_attachment_ids: Vec<String>,
}

/// The request body for a task update call.
pub struct UpdatedTask {
    pub issue_id: String,
    pub summary: Option<String>,
    pub parent: Option<String>,
    pub description: Option<String>,
    pub sprint: Option<String>,
    pub task_type: Option<String>,
    pub priority: Option<String>,
    pub followers: Vec<String>,
    pub attachment_ids: Vec<String>,
    pub description_attachment_ids: Vec<String>,
}

// ---------------------------------------------------------------------------
// Views.
// ---------------------------------------------------------------------------

/// The views of a sequence of tasks, in order.
pub open spec fn subtask_views(s: Seq<CreatedTaskInfo>) -> Seq<CreatedTaskInfoView>
    decreases s,
{
    if s.len() == 0 {
        Seq::empty()
    } else {
        subtask_views(s.drop_last()).push(created_task_view(s.last()))
    }
}

pub open spec fn created_task_view(t: CreatedTaskInfo) -> CreatedTaskInfoView
    decreases t,
{
    CreatedTaskInfoView {
        queue: t.queue@,
        summary: t.summary@,
        parent: t.parent.deep_view(),
        description: t.description.deep_view(),
        sprint: t.sprint.deep_view(),
        task_type: t.task_type.deep_view(),
        priority: t.priority.deep_view(),
        followers: t.followers.deep_view(),
        assignee: t.assignee.deep_view(),
        author: t.author.deep_view(),
        unique: t.unique.deep_view(),
        attachment_ids: t.attachment_ids.deep_view(),
        subtasks: subtask_views(t.subtasks@),
    }
}

pub broadcast proof fn lemma_subtask_views(s: Seq<CreatedTaskInfo>)
    ensures
        #[trigger] subtask_views(s).len() == s.len(),
        forall|i: int| 0 <= i < s.len() ==> subtask_views(s)[i] == created_task_view(s[i]),
    decreases s,
{
    if s.len() > 0 {
        lemma_subtask_views(s.drop_last());
    }
}

impl View for CreatedTaskInfo {
    type V = CreatedTaskInfoView;

    open spec fn view(&self) -> CreatedTaskInfoView {
        created_task_view(*self)
    }
}

impl View for CreatedTaskBody {
    type V = CreatedTaskBodyView;

    open spec fn view(&self) -> CreatedTaskBodyView {
        CreatedTaskBodyView {
            queue: self.queue@,
            summary: self.summary@,
            parent: self.parent.deep_view(),
            description: self.description.deep_view(),
            sprint: self.sprint.deep_view(),
            task_type: self.task_type.deep_view(),
            priority: self.priority.deep_view(),
            followers: self.followers.deep_view(),
            assignee: self.assignee.deep_view(),
            author: self.author.deep_view(),
            unique: self.unique.deep_view(),
            attachment_ids: self.attachment_ids.deep_view(),
        }
    }
}

impl View for UpdatedTaskInfo {
    type V = UpdatedTaskInfoView;

    open spec fn view(&self) -> UpdatedTaskInfoView {
        UpdatedTaskInfoView {
            issue_id: self.issue_id@,
            summary: self.summary.deep_view(),
            parent: self.parent.deep_view(),
            description: self.description.deep_view(),
            sprint: self.sprint.deep_view(),
            task_type: self.task_type.deep_view(),
            priority: self.priority.deep_view(),
            followers: self.followers.deep_view(),
            attachment_ids: self.attachment_ids.deep_view(),
            description_attachment_ids: self.description_attachment_ids.deep_view(),
        }
    }
}

impl View for UpdatedTask {
    type V = UpdatedTaskView;

    open spec fn view(&self) -> UpdatedTaskView {
        UpdatedTaskView {
            issue_id: self.issue_id@,
            summary: self.summary.deep_view(),
            parent: self.parent.deep_view(),
            description: self.description.deep_view(),
            sprint: self.sprint.deep_view(),
            task_type: self.task_type.deep_view(),
            priority: self.priority.deep_view(),
            followers: self.followers.deep_view(),
            attachment_ids: self.attachment_ids.deep_view(),
            description_attachment_ids: self.description_attachment_ids.deep_view(),
        }
    }
}

// ---------------------------------------------------------------------------
// Cloning helpers with exact contracts.
// ---------------------------------------------------------------------------

pub fn clone_string_vec(v: &Vec<String>) -> (r: Vec<String>)
    ensures
        r.deep_view() == v.deep_view(),
        r@.len() == v@.len(),
{
    let mut r: Vec<String> = Vec::new();
    let mut i: usize = 0;
    while i < v.len()
        invariant
            0 <= i <= v.len(),
            r@.len() == i,
            forall|j: int| 0 <= j < i ==> r@[j]@ == v@[j]@,
        decreases v.len() - i,
    {
        r.push(v[i].clone());
        i = i + 1;
    }
    proof {
        assert(r.deep_view() =~= v.deep_view());
    }
    r
}

pub fn clone_opt_string(o: &Option<String>) -> (r: Option<String>)
    ensures
        r.deep_view() == o.deep_view(),
{
    match o {
        Some(s) => Some(s.clone()),
        None => None,
    }
}

/// Clones a task list, preserving the views of all members.
pub fn clone_subtasks(v: &Vec<CreatedTaskInfo>) -> (r: Vec<CreatedTaskInfo>)
    ensures
        subtask_views(r@) == subtask_views(v@),
        r@.len() == v@.len(),
    decreases v@,
{
    let mut r: Vec<CreatedTaskInfo> = Vec::new();
    let mut i: usize = 0;
    while i < v.len()
        invariant
            0 <= i <= v.len(),
            r@.len() == i,
            forall|j: int| 0 <= j < i ==> #[trigger] r@[j]@ == v@[j]@,
        decreases v.len() - i,
    {
        proof {
            // justifies the recursive call's termination
            assert(decreases_to!(v@ => v@[i as int]));
        }
        r.push(clone_created_task(&v[i]));
        i = i + 1;
    }
    proof {
        lemma_subtask_views(r@);
        lemma_subtask_views(v@);
        assert forall|j: int| 0 <= j < r@.len() implies subtask_views(r@)[j] == subtask_views(
            v@,
        )[j] by {
            assert(r@[j]@ == v@[j]@);
        }
        assert(subtask_views(r@) =~= subtask_views(v@));
    }
    r
}

/// Clones one task, preserving its view.
pub fn clone_created_task(t: &CreatedTaskInfo) -> (r: CreatedTaskInfo)
    ensures
        r@ == t@,
    decreases *t,
{
    let r = CreatedTaskInfo {
        queue: t.queue.clone(),
        summary: t.summary.clone(),
        parent: clone_opt_string(&t.parent),
        description: clone_opt_string(&t.description),
        sprint: clone_string_vec(&t.sprint),
        task_type: clone_opt_string(&t.task_type),
        priority: clone_opt_string(&t.priority),
        followers: clone_string_vec(&t.followers),
        assignee: clone_opt_string(&t.assignee),
        author: clone_opt_string(&t.author),
        unique: clone_opt_string(&t.unique),
        attachment_ids: clone_string_vec(&t.attachment_ids),
        subtasks: clone_subtasks(&t.subtasks),
    };
    proof {
        assert(r@ =~= t@);
    }
    r
}

impl Clone for CreatedTaskInfo {
    fn clone(&self) -> (r: Self)
        ensures
            r@ == self@,
    {
        clone_created_task(self)
    }
}

pub fn clone_updated_task_info(t: &UpdatedTaskInfo) -> (r: UpdatedTaskInfo)
    ensures
        r@ == t@,
{
    let r = UpdatedTaskInfo {
        issue_id: t.issue_id.clone(),
        summary: clone_opt_string(&t.summary),
        parent: clone_opt_string(&t.parent),
        description: clone_opt_string(&t.description),
        sprint: clone_opt_string(&t.sprint),
        task_type: clone_opt_string(&t.task_type),
        priority: clone_opt_string(&t.priority),
        followers: clone_string_vec(&t.followers),
        attachment_ids: clone_string_vec(&t.attachment_ids),
        description_attachment_ids: clone_string_vec(&t.description_attachment_ids),
    };
    proof {
        assert(r@ =~= t@);
    }
    r
}

impl Clone for UpdatedTaskInfo {
    fn clone(&self) -> (r: Self)
        ensures
            r@ == self@,
    {
        clone_updated_task_info(self)
    }
}

// ---------------------------------------------------------------------------
// Equality.
//
// Two creation requests count as the same request exactly when their `queue`
// and `summary` agree; the other attributes do not enter the comparison.
// ---------------------------------------------------------------------------

/// The deduplication key of a creation request: `(queue, summary)`.
pub open spec fn created_key_eq(a: CreatedTaskInfoView, b: CreatedTaskInfoView) -> bool {
    a.queue == b.queue && a.summary == b.summary
}

impl PartialEq for CreatedTaskInfo {
    /// Two creation requests are equal when their `(queue, summary)` keys are.
    fn eq(&self, other: &Self) -> (r: bool) {
        self.queue == other.queue && self.summary == other.summary
    }
}

impl Eq for CreatedTaskInfo {}

impl vstd::std_specs::cmp::PartialEqSpecImpl for CreatedTaskInfo {
    open spec fn obeys_eq_spec() -> bool {
        true
    }

    open spec fn eq_spec(&self, other: &Self) -> bool {
        created_key_eq(self@, other@)
    }
}

/// Compares two optional strings by contents.
pub fn opt_string_eq(a: &Option<String>, b: &Option<String>) -> (r: bool)
    ensures
        r == (a.deep_view() == b.deep_view()),
{
    match (a, b) {
        (Some(x), Some(y)) => *x == *y,
        (None, None) => true,
        _ => false,
    }
}

/// Compares two string lists by contents.
pub fn string_vec_eq(a: &Vec<String>, b: &Vec<String>) -> (r: bool)
    ensures
        r == (a.deep_view() == b.deep_view()),
{
    if a.len() != b.len() {
        assert(a.deep_view().len() != b.deep_view().len());
        return false;
    }
    let mut i: usize = 0;
    while i < a.len()
        invariant
            0 <= i <= a.len(),
            a@.len() == b@.len(),
            forall|j: int| 0 <= j < i ==> a@[j]@ == b@[j]@,
        decreases a.len() - i,
    {
        if !(a[i] == b[i]) {
            assert(a.deep_view()[i as int] != b.deep_view()[i as int]);
            return false;
        }
        i = i + 1;
    }
    proof {
        assert(a.deep_view() =~= b.deep_view());
    }
    true
}

impl PartialEq for UpdatedTaskInfo {
    /// Two updates are equal when all their fields agree.
    fn eq(&self, other: &Self) -> (r: bool) {
        let r = self.issue_id == other.issue_id && opt_string_eq(&self.summary, &other.summary)
            && opt_string_eq(&self.parent, &other.parent) && opt_string_eq(
            &self.description,
            &other.description,
        ) && opt_string_eq(&self.sprint, &other.sprint) && opt_string_eq(
            &self.task_type,
            &other.task_type,
        ) && opt_string_eq(&self.priority, &other.priority) && string_vec_eq(
            &self.followers,
            &other.followers,
        ) && string_vec_eq(&self.attachment_ids, &other.attachment_ids) && string_vec_eq(
            &self.description_attachment_ids,
            &other.description_attachment_ids,
        );
        proof {
            if r {
                assert(self@ =~= other@);
            }
        }
        r
    }
}

impl Eq for UpdatedTaskInfo {}

impl vstd::std_specs::cmp::PartialEqSpecImpl for UpdatedTaskInfo {
    open spec fn obeys_eq_spec() -> bool {
        true
    }

    open spec fn eq_spec(&self, other: &Self) -> bool {
        self@ == other@
    }
}

// ---------------------------------------------------------------------------
// Behavior.
// ---------------------------------------------------------------------------

impl CreatedTaskInfo {
    /// The same task under a new `parent` and `queue`; the remaining
    /// attributes and the subtasks are unchanged.
    pub fn set(&self, parent: String, queue: String) -> (r: CreatedTaskInfo)
        ensures
            r@ == (CreatedTaskInfoView { queue: queue@, parent: Some(parent@), ..self@ }),
    {
        let r = CreatedTaskInfo {
            queue,
            summary: self.summary.clone(),
            parent: Some(parent),
            description: clone_opt_string(&self.description),
            sprint: clone_string_vec(&self.sprint),
            task_type: clone_opt_string(&self.task_type),
            priority: clone_opt_string(&self.priority),
            followers: clone_string_vec(&self.followers),
            assignee: clone_opt_string(&self.assignee),
            author: clone_opt_string(&self.author),
            unique: clone_opt_string(&self.unique),
            attachment_ids: clone_string_vec(&self.attachment_ids),
            subtasks: clone_subtasks(&self.subtasks),
        };
        proof {
            assert(r@ =~= (CreatedTaskInfoView {
                queue: r.queue@,
                parent: Some(r.parent.deep_view()->0),
                ..self@
            }));
        }
        r
    }

    /// A creation request is well-formed when both required fields, `queue`
    /// and `summary`, are non-empty.
    pub fn has_required_fields(&self) -> (r: bool)
        ensures
            r == (self@.queue.len() != 0 && self@.summary.len() != 0),
    {
        !self.queue.as_str().is_empty() && !self.summary.as_str().is_empty()
    }
}

/// An update patch is empty when every optional field is absent and every
/// list field is empty.
pub open spec fn updated_patch_is_empty(v: UpdatedTaskInfoView) -> bool {
    &&& v.summary is None
    &&& v.parent is None
    &&& v.description is None
    &&& v.sprint is None
    &&& v.task_type is None
    &&& v.priority is None
    &&& v.followers.len() == 0
    &&& v.attachment_ids.len() == 0
    &&& v.description_attachment_ids.len() == 0
}

impl UpdatedTaskInfo {
    /// True exactly when the patch carries nothing: such an update is invalid.
    pub fn is_empty(&self) -> (r: bool)
        ensures
            r == updated_patch_is_empty(self@),
    {
        self.summary.is_none() && self.parent.is_none() && self.description.is_none()
            && self.sprint.is_none() && self.task_type.is_none() && self.priority.is_none()
            && self.followers.len() == 0 && self.attachment_ids.len() == 0
            && self.description_attachment_ids.len() == 0
    }
}

// ---------------------------------------------------------------------------
// Conversions into the request bodies.
// ---------------------------------------------------------------------------

impl From<CreatedTaskInfo> for CreatedTaskBody {
    /// Moves every attribute of the creation request into a request body,
    /// dropping the subtasks.
    fn from(value: CreatedTaskInfo) -> (r: CreatedTaskBody) {
        CreatedTaskBody {
            queue: value.queue,
            summary: value.summary,
            parent: value.parent,
            description: value.description,
            sprint: value.sprint,
            task_type: value.task_type,
            priority: value.priority,
            followers: value.followers,
            assignee: value.assignee,
            author: value.author,
            unique: value.unique,
            attachment_ids: value.attachment_ids,
        }
    }
}

impl vstd::std_specs::convert::FromSpecImpl<CreatedTaskInfo> for CreatedTaskBody {
    open spec fn obeys_from_spec() -> bool {
        true
    }

    open spec fn from_spec(v: CreatedTaskInfo) -> CreatedTaskBody {
        CreatedTaskBody {
            queue: v.queue,
            summary: v.summary,
            parent: v.parent,
            description: v.description,
            sprint: v.sprint,
            task_type: v.task_type,
            priority: v.priority,
            followers: v.followers,
            assignee: v.assignee,
            author: v.author,
            unique: v.unique,
            attachment_ids: v.attachment_ids,
        }
    }
}

impl From<UpdatedTaskInfo> for UpdatedTask {
    /// Moves every field of the update into a request body.
    fn from(value: UpdatedTaskInfo) -> (r: UpdatedTask) {
        UpdatedTask {
            issue_id: value.issue_id,
            summary: value.summary,
            parent: value.parent,
            description: value.description,
            sprint: value.sprint,
            task_type: value.task_type,
            priority: value.priority,
            followers: value.followers,
            attachment_ids: value.attachment_ids,
            description_attachment_ids: value.description_attachment_ids,
        }
    }
}

impl vstd::std_specs::convert::FromSpecImpl<UpdatedTaskInfo> for UpdatedTask {
    open spec fn obeys_from_spec() -> bool {
        true
    }

    open spec fn from_spec(v: UpdatedTaskInfo) -> UpdatedTask {
        UpdatedTask {
            issue_id: v.issue_id,
            summary: v.summary,
            parent: v.parent,
            description: v.description,
            sprint: v.sprint,
            task_type: v.task_type,
            priority: v.priority,
            followers: v.followers,
            attachment_ids: v.attachment_ids,
            description_attachment_ids: v.description_attachment_ids,
        }
    }
}

// ---------------------------------------------------------------------------
// Template values.
// ---------------------------------------------------------------------------

impl Default for CreatedTaskInfo {
    /// A template creation request whose fields carry their own descriptions.
    fn default() -> (r: Self)
        ensures
            r@.queue == "The queue to which the task belongs"@,
            r@.summary == "A brief summary of the task"@,
            r@.parent == Some("The parent task ID (optional)"@),
            r@.description == Some("A detailed description of the task (optional)"@),
            r@.sprint.len() == 0,
            r@.task_type == Some("The type of the task (optional)"@),
            r@.priority == Some("The priority level of the task (optional)"@),
            r@.followers.len() == 0,
            r@.assignee == Some("The user assigned to the task (optional)"@),
            r@.author == Some("The author of the task (optional)"@),
            r@.unique == Some("A unique identifier for the task (optional)"@),
            r@.attachment_ids.len() == 0,
            r@.subtasks.len() == 0,
    {
        let r = CreatedTaskInfo {
            queue: "The queue to which the task belongs".to_owned(),
            summary: "A brief summary of the task".to_owned(),
            parent: Some("The parent task ID (optional)".to_owned()),
            description: Some("A detailed description of the task (optional)".to_owned()),
            sprint: Vec::new(),
            task_type: Some("The type of the task (optional)".to_owned()),
            priority: Some("The priority level of the task (optional)".to_owned()),
            followers: Vec::new(),
            assignee: Some("The user assigned to the task (optional)".to_owned()),
            author: Some("The author of the task (optional)".to_owned()),
            unique: Some("A unique identifier for the task (optional)".to_owned()),
            attachment_ids: Vec::new(),
            subtasks: Vec::new(),
        };
        proof {
            lemma_subtask_views(r.subtasks@);
            assert(r@.sprint =~= Seq::<Seq<char>>::empty());
            assert(r@.followers =~= Seq::<Seq<char>>::empty());
            assert(r@.attachment_ids =~= Seq::<Seq<char>>::empty());
        }
        r
    }
}

impl Default for UpdatedTaskInfo {
    /// A template update whose fields carry their own descriptions.
    fn default() -> (r: Self)
        ensures
            r@.issue_id == "The ID of the issue to be updated"@,
            r@.summary == Some("A brief summary of the task (optional)"@),
            r@.parent == Some("The parent task ID (optional)"@),
            r@.description == Some("A detailed description of the task (optional)"@),
            r@.sprint == Some("The sprint associated with the task (optional)"@),
            r@.task_type == Some("The type of the task (optional)"@),
            r@.priority == Some("The priority level of the task (optional)"@),
            r@.followers.len() == 0,
            r@.attachment_ids.len() == 0,
            r@.description_attachment_ids.len() == 0,
    {
        let r = UpdatedTaskInfo {
            issue_id: "The ID of the issue to be updated".to_owned(),
            summary: Some("A brief summary of the task (optional)".to_owned()),
            parent: Some("The parent task ID (optional)".to_owned()),
            description: Some("A detailed description of the task (optional)".to_owned()),
            sprint: Some("The sprint associated with the task (optional)".to_owned()),
            task_type: Some("The type of the task (optional)".to_owned()),
            priority: Some("The priority level of the task (optional)".to_owned()),
            followers: Vec::new(),
            attachment_ids: Vec::new(),
            description_attachment_ids: Vec::new(),
        };
        proof {
            assert(r@.followers =~= Seq::<Seq<char>>::empty());
            assert(r@.attachment_ids =~= Seq::<Seq<char>>::empty());
            assert(r@.description_attachment_ids =~= Seq::<Seq<char>>::empty());
        }
        r
    }
}

} // verus!
