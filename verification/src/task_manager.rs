use vstd::prelude::*;

use crate::task::{
    clone_created_task, clone_updated_task_info, lemma_subtask_views, subtask_views,
    CreatedTaskInfo, CreatedTaskInfoView, UpdatedTaskInfo,
};
use crate::task_api_client::TaskApiClient;
use crate::task_batch::{contains_created_key, TaskBatch, TaskBatchView};

verus! {

broadcast use crate::task::lemma_subtask_views;

/// Drains a task batch one remote mutation at a time. The remote calls, the
/// checkpoint writes and the inter-call delay are performed by the
/// surrounding program; the selection of the next mutation and the batch
/// rewriting after a success are the verified functions below.
///
/// Creations are processed first, in order, each success enqueueing the
/// finished task's subtasks as new pending creations parented on the fresh
/// issue key; only when no creation is left are the updates processed. On
/// any remote failure processing halts with the batch reflecting exactly
/// the work still outstanding.
pub struct TaskBatchHandler {
    pub api_client: TaskApiClient,
}

impl TaskBatchHandler {
    pub fn new(api_client: TaskApiClient) -> (r: Self)
        ensures
            r.api_client.token@ == api_client.token@,
            r.api_client.org_id@ == api_client.org_id@,
    {
        TaskBatchHandler { api_client }
    }
}

/// A creation request reparented under a freshly assigned issue key.
pub open spec fn with_parent(v: CreatedTaskInfoView, key: Seq<char>) -> CreatedTaskInfoView {
    CreatedTaskInfoView { parent: Some(key), ..v }
}

/// The pending creations after a success: each subtask of the finished
/// task, reparented on `key`, is appended in order unless a member with its
/// `(queue, summary)` key is already pending.
pub open spec fn enqueue_subtasks(
    created: Seq<CreatedTaskInfoView>,
    subs: Seq<CreatedTaskInfoView>,
    key: Seq<char>,
) -> Seq<CreatedTaskInfoView>
    decreases subs.len(),
{
    if subs.len() == 0 {
        created
    } else {
        let t = with_parent(subs[0], key);
        let next = if contains_created_key(created, t) {
            created
        } else {
            created.push(t)
        };
        enqueue_subtasks(next, subs.drop_first(), key)
    }
}

/// The creation to send next: the first pending one, if any.
pub fn peek_created(batch: &TaskBatch) -> (r: Option<CreatedTaskInfo>)
    ensures
        match r {
            Some(t) => batch@.created.len() > 0 && t@ == batch@.created[0],
            None => batch@.created.len() == 0,
        },
{
    if batch.created.len() == 0 {
        None
    } else {
        proof {
            lemma_subtask_views(batch.created@);
        }
        Some(clone_created_task(&batch.created[0]))
    }
}

/// The update to send next: the first pending one, if any. Updates are only
/// sent once `peek_created` reports no pending creation.
pub fn peek_updated(batch: &TaskBatch) -> (r: Option<UpdatedTaskInfo>)
    ensures
        match r {
            Some(t) => batch@.updated.len() > 0 && t@ == batch@.updated[0],
            None => batch@.updated.len() == 0,
        },
{
    if batch.updated.len() == 0 {
        None
    } else {
        Some(clone_updated_task_info(&batch.updated[0]))
    }
}

/// Rewrites the batch after the first pending creation succeeded remotely
/// with issue key `key`: the finished member leaves the batch and its
/// subtasks, parented on `key`, join the pending creations. The batch is
/// then exactly what is still outstanding, ready to be checkpointed.
pub fn apply_created_success(batch: &mut TaskBatch, key: &String)
    requires
        old(batch)@.created.len() > 0,
    ensures
        final(batch)@.created == enqueue_subtasks(
            old(batch)@.created.drop_first(),
            old(batch)@.created[0].subtasks,
            key@,
        ),
        final(batch)@.updated == old(batch)@.updated,
{
    let first = batch.created.remove(0);
    proof {
        lemma_subtask_views(old(batch).created@);
        lemma_subtask_views(batch.created@);
        assert(batch.created@ =~= old(batch).created@.drop_first());
        assert forall|j: int| 0 <= j < batch.created@.len() implies subtask_views(
            batch.created@,
        )[j] == old(batch)@.created.drop_first()[j] by {
            assert(batch.created@[j] == old(batch).created@[j + 1]);
        }
        assert(batch@.created =~= old(batch)@.created.drop_first());
        assert(first@ == old(batch)@.created[0]);
        lemma_subtask_views(first.subtasks@);
        assert(first@.subtasks.skip(0) =~= first@.subtasks);
    }
    let ghost base = old(batch)@.created.drop_first();
    let ghost subs = old(batch)@.created[0].subtasks;
    let mut k: usize = 0;
    while k < first.subtasks.len()
        invariant
            0 <= k <= first.subtasks.len(),
            first@ == old(batch)@.created[0],
            subs == first@.subtasks,
            subs.len() == first.subtasks@.len(),
            enqueue_subtasks(base, subs, key@) == enqueue_subtasks(
                batch@.created,
                subs.skip(k as int),
                key@,
            ),
            batch@.updated == old(batch)@.updated,
        decreases first.subtasks.len() - k,
    {
        proof {
            lemma_subtask_views(first.subtasks@);
            assert(subs[k as int] == first.subtasks@[k as int]@);
        }
        let sub = &first.subtasks[k];
        let t = sub.set(key.clone(), sub.queue.clone());
        proof {
            assert(t@ =~= with_parent(subs[k as int], key@));
            assert(subs.skip(k as int)[0] == subs[k as int]);
            assert(subs.skip(k as int).drop_first() =~= subs.skip(k as int + 1));
        }
        batch.insert_created(t);
        k = k + 1;
    }
    proof {
        assert(subs.skip(subs.len() as int) =~= Seq::<CreatedTaskInfoView>::empty());
    }
}

/// The number of tree nodes of one creation request: itself plus all of
/// its subtasks, recursively.
pub open spec fn task_size(v: CreatedTaskInfoView) -> nat
    decreases v, 2int,
{
    1 + tasks_size(v.subtasks)
}

/// The total number of tree nodes of a creation list.
pub open spec fn tasks_size(s: Seq<CreatedTaskInfoView>) -> nat
    decreases s, 1int,
{
    if s.len() == 0 {
        0
    } else {
        (tasks_size(s.drop_last()) + task_size(s.last())) as nat
    }
}

proof fn lemma_tasks_size_push(s: Seq<CreatedTaskInfoView>, t: CreatedTaskInfoView)
    ensures
        tasks_size(s.push(t)) == tasks_size(s) + task_size(t),
{
    assert(s.push(t).drop_last() =~= s);
    assert(s.push(t).last() == t);
}

proof fn lemma_tasks_size_drop_first(s: Seq<CreatedTaskInfoView>)
    requires
        s.len() > 0,
    ensures
        tasks_size(s) == task_size(s[0]) + tasks_size(s.drop_first()),
    decreases s.len(),
{
    if s.len() == 1 {
        assert(s.drop_last() =~= Seq::<CreatedTaskInfoView>::empty());
        assert(s.drop_first() =~= Seq::<CreatedTaskInfoView>::empty());
        assert(s.last() == s[0]);
    } else {
        lemma_tasks_size_drop_first(s.drop_last());
        assert(s.drop_last()[0] == s[0]);
        assert(s.drop_last().drop_first() =~= s.drop_first().drop_last());
        assert(s.drop_first().last() == s.last());
    }
}

proof fn lemma_enqueue_size(
    created: Seq<CreatedTaskInfoView>,
    subs: Seq<CreatedTaskInfoView>,
    key: Seq<char>,
)
    ensures
        tasks_size(enqueue_subtasks(created, subs, key)) <= tasks_size(created) + tasks_size(subs),
    decreases subs.len(),
{
    if subs.len() > 0 {
        let t = with_parent(subs[0], key);
        assert(task_size(t) == task_size(subs[0]));
        let next = if contains_created_key(created, t) {
            created
        } else {
            created.push(t)
        };
        lemma_tasks_size_push(created, t);
        lemma_enqueue_size(next, subs.drop_first(), key);
        lemma_tasks_size_drop_first(subs);
    }
}

/// The creation phase terminates: finishing a creation strictly shrinks
/// the total number of pending tree nodes, its enqueued subtasks included,
/// since the finished node leaves and only its children may enter.
pub proof fn lemma_apply_created_decreases_work(b: TaskBatchView, key: Seq<char>)
    requires
        b.created.len() > 0,
    ensures
        tasks_size(enqueue_subtasks(b.created.drop_first(), b.created[0].subtasks, key))
            < tasks_size(b.created),
{
    lemma_tasks_size_drop_first(b.created);
    lemma_enqueue_size(b.created.drop_first(), b.created[0].subtasks, key);
    assert(task_size(b.created[0]) == 1 + tasks_size(b.created[0].subtasks));
}

/// A list of creation requests is well-formed exactly when each of its
/// members is.
pub proof fn lemma_created_tasks_wf_iff(s: Seq<CreatedTaskInfoView>)
    ensures
        crate::task_batch::created_tasks_wf(s) <==> (forall|i: int|
            0 <= i < s.len() ==> #[trigger] crate::task_batch::created_task_wf(s[i])),
    decreases s.len(),
{
    if s.len() > 0 {
        lemma_created_tasks_wf_iff(s.drop_last());
        if crate::task_batch::created_tasks_wf(s) {
            assert forall|i: int|
                0 <= i < s.len() implies #[trigger] crate::task_batch::created_task_wf(s[i]) by {
                if i < s.len() - 1 {
                    assert(crate::task_batch::created_task_wf(s.drop_last()[i]));
                }
            }
        }
        if forall|i: int| 0 <= i < s.len() ==> #[trigger] crate::task_batch::created_task_wf(s[i]) {
            assert forall|i: int|
                0 <= i < s.drop_last().len() implies #[trigger] crate::task_batch::created_task_wf(
                s.drop_last()[i],
            ) by {
                assert(s.drop_last()[i] == s[i]);
            }
            assert(crate::task_batch::created_task_wf(s.last()));
        }
    }
}

/// Enqueueing reparented subtasks into a duplicate-free list of well-formed
/// creation requests yields a duplicate-free list of well-formed requests.
proof fn lemma_enqueue_wf(
    created: Seq<CreatedTaskInfoView>,
    subs: Seq<CreatedTaskInfoView>,
    key: Seq<char>,
)
    requires
        crate::task_batch::created_keys_unique(created),
        forall|i: int|
            0 <= i < created.len() ==> #[trigger] crate::task_batch::created_task_wf(created[i]),
        forall|i: int|
            0 <= i < subs.len() ==> #[trigger] crate::task_batch::created_task_wf(subs[i]),
    ensures
        crate::task_batch::created_keys_unique(enqueue_subtasks(created, subs, key)),
        forall|i: int|
            0 <= i < enqueue_subtasks(created, subs, key).len()
                ==> #[trigger] crate::task_batch::created_task_wf(
                enqueue_subtasks(created, subs, key)[i],
            ),
    decreases subs.len(),
{
    if subs.len() > 0 {
        let t = with_parent(subs[0], key);
        assert(crate::task_batch::created_task_wf(subs[0]));
        assert(crate::task_batch::created_task_wf(t));
        let next = if crate::task_batch::contains_created_key(created, t) {
            created
        } else {
            created.push(t)
        };
        if !crate::task_batch::contains_created_key(created, t) {
            assert forall|i: int, j: int|
                0 <= i < j < next.len() implies !#[trigger] crate::task::created_key_eq(
                next[i],
                next[j],
            ) by {
                if j < created.len() {
                    assert(next[i] == created[i] && next[j] == created[j]);
                } else {
                    assert(next[i] == created[i] && next[j] == t);
                    assert(!crate::task::created_key_eq(created[i], t));
                }
            }
            assert forall|i: int|
                0 <= i < next.len() implies #[trigger] crate::task_batch::created_task_wf(
                next[i],
            ) by {
                if i < created.len() {
                    assert(next[i] == created[i]);
                } else {
                    assert(next[i] == t);
                }
            }
        }
        assert forall|i: int|
            0 <= i < subs.drop_first().len() implies #[trigger] crate::task_batch::created_task_wf(
            subs.drop_first()[i],
        ) by {
            assert(subs.drop_first()[i] == subs[i + 1]);
        }
        lemma_enqueue_wf(next, subs.drop_first(), key);
    }
}

/// Finishing a creation preserves well-formedness: the batch that remains
/// after the first pending creation succeeds, its subtasks enqueued on the
/// fresh key, is still well-formed, so its checkpoint still decodes to
/// exactly itself.
pub proof fn lemma_apply_created_preserves_wf(b: TaskBatchView, key: Seq<char>)
    requires
        crate::task_batch::batch_wf(b),
        b.created.len() > 0,
    ensures
        crate::task_batch::batch_wf(
            TaskBatchView {
                created: enqueue_subtasks(b.created.drop_first(), b.created[0].subtasks, key),
                updated: b.updated,
            },
        ),
{
    lemma_created_tasks_wf_iff(b.created);
    let df = b.created.drop_first();
    assert forall|i: int, j: int|
        0 <= i < j < df.len() implies !#[trigger] crate::task::created_key_eq(df[i], df[j]) by {
        assert(df[i] == b.created[i + 1] && df[j] == b.created[j + 1]);
    }
    assert forall|i: int|
        0 <= i < df.len() implies #[trigger] crate::task_batch::created_task_wf(df[i]) by {
        assert(df[i] == b.created[i + 1]);
    }
    assert(crate::task_batch::created_task_wf(b.created[0]));
    lemma_created_tasks_wf_iff(b.created[0].subtasks);
    lemma_enqueue_wf(df, b.created[0].subtasks, key);
    lemma_created_tasks_wf_iff(enqueue_subtasks(df, b.created[0].subtasks, key));
}

/// Finishing an update preserves well-formedness.
pub proof fn lemma_apply_updated_preserves_wf(b: TaskBatchView)
    requires
        crate::task_batch::batch_wf(b),
        b.updated.len() > 0,
    ensures
        crate::task_batch::batch_wf(
            TaskBatchView { created: b.created, updated: b.updated.drop_first() },
        ),
{
    let df = b.updated.drop_first();
    assert forall|i: int, j: int| 0 <= i < j < df.len() implies #[trigger] df[i]
        != #[trigger] df[j] by {
        assert(df[i] == b.updated[i + 1] && df[j] == b.updated[j + 1]);
    }
}

/// Rewrites the batch after the first pending update succeeded remotely:
/// the finished member leaves the batch; nothing else changes.
pub fn apply_updated_success(batch: &mut TaskBatch)
    requires
        old(batch)@.updated.len() > 0,
    ensures
        final(batch)@.updated == old(batch)@.updated.drop_first(),
        final(batch)@.created == old(batch)@.created,
{
    batch.updated.remove(0);
    proof {
        assert(batch@.updated =~= old(batch)@.updated.drop_first());
    }
}

} // verus!
