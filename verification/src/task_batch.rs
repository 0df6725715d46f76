use vstd::prelude::*;

use crate::task::{
    created_key_eq, lemma_subtask_views, subtask_views, updated_patch_is_empty, CreatedTaskInfo,
    CreatedTaskInfoView, UpdatedTaskInfo, UpdatedTaskInfoView,
};

verus! {

broadcast use crate::task::lemma_subtask_views;

/// Failure modes of loading a batch: the storage read failed, the text did
/// not decode, or the decoded batch is structurally invalid.
#[derive(Debug)]
pub enum TaskBatchError {
    ReadError(String),
    DeserializeError,
    InvalidTaskError,
}

/// Model of a batch: the pending creations and the pending updates, both
/// sets kept in their processing order.
#[verifier::ext_equal]
pub struct TaskBatchView {
    pub created: Seq<CreatedTaskInfoView>,
    pub updated: Seq<UpdatedTaskInfoView>,
}

/// A batch of pending mutations: tasks to create and tasks to update.
/// Member identity in `created` is the `(queue, summary)` key; members of
/// `updated` are compared by all fields.
pub struct TaskBatch {
    pub created: Vec<CreatedTaskInfo>,
    pub updated: Vec<UpdatedTaskInfo>,
}

pub open spec fn updated_views(s: Seq<UpdatedTaskInfo>) -> Seq<UpdatedTaskInfoView> {
    Seq::new(s.len(), |i: int| s[i]@)
}

impl View for TaskBatch {
    type V = TaskBatchView;

    open spec fn view(&self) -> TaskBatchView {
        TaskBatchView { created: subtask_views(self.created@), updated: updated_views(self.updated@) }
    }
}

// ---------------------------------------------------------------------------
// Membership and well-formedness.
// ---------------------------------------------------------------------------

/// Whether some member of `s` shares its `(queue, summary)` key with `v`.
pub open spec fn contains_created_key(s: Seq<CreatedTaskInfoView>, v: CreatedTaskInfoView) -> bool {
    exists|i: int| 0 <= i < s.len() && #[trigger] created_key_eq(s[i], v)
}

/// Whether `v` occurs in `s`.
pub open spec fn contains_updated(s: Seq<UpdatedTaskInfoView>, v: UpdatedTaskInfoView) -> bool {
    exists|i: int| 0 <= i < s.len() && s[i] == v
}

/// No two members of `s` share a `(queue, summary)` key.
pub open spec fn created_keys_unique(s: Seq<CreatedTaskInfoView>) -> bool {
    forall|i: int, j: int|
        0 <= i < j < s.len() ==> !#[trigger] created_key_eq(s[i], s[j])
}

/// No member of `s` occurs twice.
pub open spec fn updated_unique(s: Seq<UpdatedTaskInfoView>) -> bool {
    forall|i: int, j: int| 0 <= i < j < s.len() ==> #[trigger] s[i] != #[trigger] s[j]
}

/// Every creation request of the list is well-formed as a tree.
pub open spec fn created_tasks_wf(s: Seq<CreatedTaskInfoView>) -> bool
    decreases s, 1int,
{
    s.len() == 0 || (created_tasks_wf(s.drop_last()) && created_task_wf(s.last()))
}

/// A creation request is well-formed as a tree when, at every level, the
/// subtask list holds no two members with the same key.
pub open spec fn created_task_wf(v: CreatedTaskInfoView) -> bool
    decreases v, 2int,
{
    created_keys_unique(v.subtasks) && created_tasks_wf(v.subtasks)
}

/// A batch is well-formed when both member lists are duplicate-free (the
/// creations by key, recursively; the updates by value).
pub open spec fn batch_wf(b: TaskBatchView) -> bool {
    &&& created_keys_unique(b.created)
    &&& created_tasks_wf(b.created)
    &&& updated_unique(b.updated)
}

// ---------------------------------------------------------------------------
// Validity: what a freshly loaded batch must satisfy.
// ---------------------------------------------------------------------------

/// Every pending creation carries its required fields.
pub open spec fn all_created_valid(s: Seq<CreatedTaskInfoView>) -> bool {
    forall|i: int|
        0 <= i < s.len() ==> (#[trigger] s[i]).queue.len() != 0 && s[i].summary.len() != 0
}

/// No pending update has an empty patch.
pub open spec fn no_empty_updates(s: Seq<UpdatedTaskInfoView>) -> bool {
    forall|i: int| 0 <= i < s.len() ==> !updated_patch_is_empty(#[trigger] s[i])
}

/// A loadable batch: non-empty overall, every creation carries queue and
/// summary, and every update patches at least one field.
pub open spec fn batch_is_valid(b: TaskBatchView) -> bool {
    &&& b.created.len() + b.updated.len() > 0
    &&& all_created_valid(b.created)
    &&& no_empty_updates(b.updated)
}

impl TaskBatch {
    /// True when some pending creation lacks a required field.
    pub fn has_invalid_created_tasks(&self) -> (r: bool)
        ensures
            r == !all_created_valid(self@.created),
    {
        let mut i: usize = 0;
        while i < self.created.len()
            invariant
                0 <= i <= self.created.len(),
                forall|j: int|
                    0 <= j < i ==> (#[trigger] self@.created[j]).queue.len() != 0
                        && self@.created[j].summary.len() != 0,
            decreases self.created.len() - i,
        {
            proof {
                lemma_subtask_views(self.created@);
            }
            if !self.created[i].has_required_fields() {
                assert(self@.created[i as int].queue.len() == 0 || self@.created[
                    i as int
                ].summary.len() == 0);
                return true;
            }
            i = i + 1;
        }
        false
    }

    /// True when some pending update has an empty patch.
    pub fn has_invalid_updated_tasks(&self) -> (r: bool)
        ensures
            r == !no_empty_updates(self@.updated),
    {
        let mut i: usize = 0;
        while i < self.updated.len()
            invariant
                0 <= i <= self.updated.len(),
                forall|j: int| 0 <= j < i ==> !updated_patch_is_empty(#[trigger] self@.updated[j]),
            decreases self.updated.len() - i,
        {
            if self.updated[i].is_empty() {
                assert(updated_patch_is_empty(self@.updated[i as int]));
                return true;
            }
            i = i + 1;
        }
        false
    }

    /// Whether the batch may be processed: non-empty overall and free of
    /// structurally invalid members.
    pub fn is_valid(&self) -> (r: bool)
        ensures
            r == batch_is_valid(self@),
    {
        !(self.created.len() == 0 && self.updated.len() == 0) && !self.has_invalid_created_tasks()
            && !self.has_invalid_updated_tasks()
    }

    /// Inserts a pending creation, unless a member with the same
    /// `(queue, summary)` key is already present; in that case the batch is
    /// unchanged and the present member wins.
    pub fn insert_created(&mut self, t: CreatedTaskInfo)
        ensures
            contains_created_key(old(self)@.created, t@) ==> final(self)@ == old(self)@,
            !contains_created_key(old(self)@.created, t@) ==> final(self)@ == (TaskBatchView {
                created: old(self)@.created.push(t@),
                ..old(self)@
            }),
    {
        let mut i: usize = 0;
        while i < self.created.len()
            invariant
                0 <= i <= self.created.len(),
                *self == *old(self),
                forall|j: int| 0 <= j < i ==> !#[trigger] created_key_eq(self@.created[j], t@),
            decreases self.created.len() - i,
        {
            proof {
                lemma_subtask_views(self.created@);
            }
            if self.created[i].eq(&t) {
                assert(created_key_eq(self@.created[i as int], t@));
                return ;
            }
            i = i + 1;
        }
        proof {
            lemma_subtask_views(self.created@);
            assert(!contains_created_key(self@.created, t@));
        }
        self.created.push(t);
        proof {
            assert(self.created@.drop_last() =~= old(self).created@);
            assert(final(self)@ =~= (TaskBatchView {
                created: old(self)@.created.push(t@),
                ..old(self)@
            }));
        }
    }

    /// Inserts a pending update, unless an identical member is already
    /// present; in that case the batch is unchanged.
    pub fn insert_updated(&mut self, t: UpdatedTaskInfo)
        ensures
            contains_updated(old(self)@.updated, t@) ==> final(self)@ == old(self)@,
            !contains_updated(old(self)@.updated, t@) ==> final(self)@ == (TaskBatchView {
                updated: old(self)@.updated.push(t@),
                ..old(self)@
            }),
    {
        let mut i: usize = 0;
        while i < self.updated.len()
            invariant
                0 <= i <= self.updated.len(),
                *self == *old(self),
                forall|j: int| 0 <= j < i ==> self@.updated[j] != t@,
            decreases self.updated.len() - i,
        {
            if self.updated[i].eq(&t) {
                assert(self@.updated[i as int] == t@);
                return ;
            }
            i = i + 1;
        }
        assert(!contains_updated(self@.updated, t@));
        self.updated.push(t);
        proof {
            assert(final(self)@.updated =~= old(self)@.updated.push(t@));
            assert(final(self)@ =~= (TaskBatchView {
                updated: old(self)@.updated.push(t@),
                ..old(self)@
            }));
        }
    }
}

impl Default for TaskBatch {
    /// A template batch: one creation request carrying one subtask, both
    /// with the template field texts, and one template update.
    fn default() -> (r: Self)
        ensures
            r@.created.len() == 1,
            r@.created[0].subtasks.len() == 1,
            r@.updated.len() == 1,
    {
        let mut template = CreatedTaskInfo::default();
        let mut subtasks: Vec<CreatedTaskInfo> = Vec::new();
        subtasks.push(CreatedTaskInfo::default());
        proof {
            lemma_subtask_views(subtasks@);
        }
        template.subtasks = subtasks;
        let mut created: Vec<CreatedTaskInfo> = Vec::new();
        created.push(template);
        let mut updated: Vec<UpdatedTaskInfo> = Vec::new();
        updated.push(UpdatedTaskInfo::default());
        proof {
            lemma_subtask_views(created@);
        }
        TaskBatch { created, updated }
    }
}

// ---------------------------------------------------------------------------
// Laws.
// ---------------------------------------------------------------------------

/// Creation requests with equal `(queue, summary)` keys are the same member:
/// whatever their remaining fields, either both have a key-equal member in a
/// creation set or neither does.
pub proof fn lemma_created_key_dedup(
    s: Seq<CreatedTaskInfoView>,
    a: CreatedTaskInfoView,
    b: CreatedTaskInfoView,
)
    requires
        created_key_eq(a, b),
    ensures
        contains_created_key(s, a) == contains_created_key(s, b),
{
    if contains_created_key(s, a) {
        let i = choose|i: int| 0 <= i < s.len() && #[trigger] created_key_eq(s[i], a);
        assert(created_key_eq(s[i], b));
    }
    if contains_created_key(s, b) {
        let i = choose|i: int| 0 <= i < s.len() && #[trigger] created_key_eq(s[i], b);
        assert(created_key_eq(s[i], a));
    }
}

/// A batch that contains an update with an empty patch fails validation.
pub proof fn lemma_empty_update_rejected(b: TaskBatchView, i: int)
    requires
        0 <= i < b.updated.len(),
        updated_patch_is_empty(b.updated[i]),
    ensures
        !batch_is_valid(b),
{
}

/// A non-empty batch whose creations all carry their required fields and
/// whose updates each set at least one patch field passes validation.
pub proof fn lemma_nonempty_patches_accepted(b: TaskBatchView)
    requires
        b.created.len() + b.updated.len() > 0,
        all_created_valid(b.created),
        forall|i: int| 0 <= i < b.updated.len() ==> !updated_patch_is_empty(#[trigger] b.updated[i]),
    ensures
        batch_is_valid(b),
{
}

/// A batch with both member sets empty fails validation.
pub proof fn lemma_empty_batch_rejected(b: TaskBatchView)
    requires
        b.created.len() == 0,
        b.updated.len() == 0,
    ensures
        !batch_is_valid(b),
{
}

} // verus!
