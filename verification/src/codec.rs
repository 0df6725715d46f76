use vstd::prelude::*;

use crate::json::{jobj_view, jval_view, jvals_view, lemma_jobj_view, lemma_jvals_view, JsonValue,
    JVal};
use crate::task::{
    created_key_eq, lemma_subtask_views, subtask_views, CreatedTaskInfo, CreatedTaskInfoView,
    UpdatedTaskInfo, UpdatedTaskInfoView,
};
use crate::task_batch::{
    contains_created_key, contains_updated, updated_views, TaskBatch, TaskBatchView,
};
use crate::token_response::{TokenResponse, TokenResponseView};

verus! {

broadcast use crate::json::lemma_jvals_view, crate::json::lemma_jobj_view,
    crate::task::lemma_subtask_views, vstd::string::group_string_axioms;

// ---------------------------------------------------------------------------
// The JSON shape of the persisted values: how a batch, a task and a token
// are written as JSON values, and how they are read back. Reading is
// lookup-based: member order does not matter, unknown members are ignored,
// and a missing optional member defaults.
// ---------------------------------------------------------------------------

/// An optional string as JSON: the string, or null.
pub open spec fn jopt_str(o: Option<Seq<char>>) -> JVal {
    match o {
        Some(s) => JVal::Str(s),
        None => JVal::Null,
    }
}

pub open spec fn strs_to_jvals(v: Seq<Seq<char>>) -> Seq<JVal> {
    Seq::new(v.len(), |i: int| JVal::Str(v[i]))
}

/// A string list as JSON: an array of strings.
pub open spec fn jstr_arr(v: Seq<Seq<char>>) -> JVal {
    JVal::Arr(strs_to_jvals(v))
}

/// The JSON values of a creation list, in order.
pub open spec fn created_list_jvals(s: Seq<CreatedTaskInfoView>) -> Seq<JVal>
    decreases s,
{
    if s.len() == 0 {
        Seq::empty()
    } else {
        created_list_jvals(s.drop_last()).push(created_jval(s.last()))
    }
}

/// The JSON object of a creation request.
pub open spec fn created_jval(v: CreatedTaskInfoView) -> JVal
    decreases v,
{
    JVal::Obj(
        seq![
            ("queue"@, JVal::Str(v.queue)),
            ("summary"@, JVal::Str(v.summary)),
            ("parent"@, jopt_str(v.parent)),
            ("description"@, jopt_str(v.description)),
            ("sprint"@, jstr_arr(v.sprint)),
            ("type"@, jopt_str(v.task_type)),
            ("priority"@, jopt_str(v.priority)),
            ("followers"@, jstr_arr(v.followers)),
            ("assignee"@, jopt_str(v.assignee)),
            ("author"@, jopt_str(v.author)),
            ("unique"@, jopt_str(v.unique)),
            ("attachmentIds"@, jstr_arr(v.attachment_ids)),
            ("subtasks"@, JVal::Arr(created_list_jvals(v.subtasks))),
        ],
    )
}

/// The JSON object of an update.
pub open spec fn updated_jval(v: UpdatedTaskInfoView) -> JVal {
    JVal::Obj(
        seq![
            ("issue_id"@, JVal::Str(v.issue_id)),
            ("summary"@, jopt_str(v.summary)),
            ("parent"@, jopt_str(v.parent)),
            ("description"@, jopt_str(v.description)),
            ("sprint"@, jopt_str(v.sprint)),
            ("type"@, jopt_str(v.task_type)),
            ("priority"@, jopt_str(v.priority)),
            ("followers"@, jstr_arr(v.followers)),
            ("attachmentIds"@, jstr_arr(v.attachment_ids)),
            ("descriptionAttachmentIds"@, jstr_arr(v.description_attachment_ids)),
        ],
    )
}

pub open spec fn updated_list_jvals(s: Seq<UpdatedTaskInfoView>) -> Seq<JVal> {
    Seq::new(s.len(), |i: int| updated_jval(s[i]))
}

/// The JSON object of a whole batch.
pub open spec fn batch_jval(b: TaskBatchView) -> JVal {
    JVal::Obj(
        seq![
            ("created"@, JVal::Arr(created_list_jvals(b.created))),
            ("updated"@, JVal::Arr(updated_list_jvals(b.updated))),
        ],
    )
}

/// The JSON object of a cached token.
pub open spec fn token_jval(t: TokenResponseView) -> JVal {
    JVal::Obj(
        seq![
            ("access_token"@, JVal::Str(t.access_token)),
            ("expires_in"@, JVal::UInt(t.expires_in)),
        ],
    )
}

// ---------------------------------------------------------------------------
// Reading back.
// ---------------------------------------------------------------------------

/// The value of the first member named `key`, if any.
pub open spec fn obj_get(o: Seq<(Seq<char>, JVal)>, key: Seq<char>) -> Option<JVal>
    decreases o,
{
    if o.len() == 0 {
        None
    } else if o[0].0 == key {
        Some(o[0].1)
    } else {
        obj_get(o.drop_first(), key)
    }
}

/// The looked-up value of an object member is one of the member values.
pub proof fn lemma_obj_get_decreases(o: Seq<(Seq<char>, JVal)>, key: Seq<char>)
    requires
        obj_get(o, key) is Some,
    ensures
        decreases_to!(o => obj_get(o, key)->0),
    decreases o,
{
    if o[0].0 == key {
        assert(decreases_to!(o => o[0]));
        assert(decreases_to!(o[0] => o[0].1));
    } else {
        lemma_obj_get_decreases(o.drop_first(), key);
        assert(decreases_to!(o => o.drop_first()));
    }
}

/// A required string member: missing defaults to the empty string (caught
/// later by validation); any non-string value is a decode error.
pub open spec fn dec_str_or_empty(o: Seq<(Seq<char>, JVal)>, key: Seq<char>) -> Option<Seq<char>> {
    match obj_get(o, key) {
        None => Some(Seq::empty()),
        Some(JVal::Str(s)) => Some(s),
        Some(_) => None,
    }
}

/// An optional string member: missing or null is absent.
pub open spec fn dec_opt_str(o: Seq<(Seq<char>, JVal)>, key: Seq<char>) -> Option<
    Option<Seq<char>>,
> {
    match obj_get(o, key) {
        None => Some(None),
        Some(JVal::Null) => Some(None),
        Some(JVal::Str(s)) => Some(Some(s)),
        Some(_) => None,
    }
}

/// The strings of an array value; an error if any member is not a string.
pub open spec fn jvals_to_strs(a: Seq<JVal>) -> Option<Seq<Seq<char>>>
    decreases a,
{
    if a.len() == 0 {
        Some(Seq::empty())
    } else {
        match jvals_to_strs(a.drop_last()) {
            Some(p) => match a.last() {
                JVal::Str(s) => Some(p.push(s)),
                _ => None,
            },
            None => None,
        }
    }
}

/// A string-list member: missing defaults to the empty list.
pub open spec fn dec_str_arr(o: Seq<(Seq<char>, JVal)>, key: Seq<char>) -> Option<Seq<Seq<char>>> {
    match obj_get(o, key) {
        None => Some(Seq::empty()),
        Some(JVal::Arr(a)) => jvals_to_strs(a),
        Some(_) => None,
    }
}

/// The creation requests of an array of JSON objects, deduplicated on the
/// `(queue, summary)` key: a later member whose key is already present is
/// dropped, as set insertion demands.
pub open spec fn dec_created_list(a: Seq<JVal>) -> Option<Seq<CreatedTaskInfoView>>
    decreases a, 1int,
{
    if a.len() == 0 {
        Some(Seq::empty())
    } else {
        match dec_created_list(a.drop_last()) {
            Some(p) => match dec_created(a.last()) {
                Some(t) => if contains_created_key(p, t) {
                    Some(p)
                } else {
                    Some(p.push(t))
                },
                None => None,
            },
            None => None,
        }
    }
}

/// A creation request from a JSON value, which must be an object.
pub open spec fn dec_created(v: JVal) -> Option<CreatedTaskInfoView>
    decreases v, 2int,
{
    match v {
        JVal::Obj(o) => {
            let queue = dec_str_or_empty(o, "queue"@);
            let summary = dec_str_or_empty(o, "summary"@);
            let parent = dec_opt_str(o, "parent"@);
            let description = dec_opt_str(o, "description"@);
            let sprint = dec_str_arr(o, "sprint"@);
            let task_type = dec_opt_str(o, "type"@);
            let priority = dec_opt_str(o, "priority"@);
            let followers = dec_str_arr(o, "followers"@);
            let assignee = dec_opt_str(o, "assignee"@);
            let author = dec_opt_str(o, "author"@);
            let unique = dec_opt_str(o, "unique"@);
            let attachment_ids = dec_str_arr(o, "attachmentIds"@);
            let subtasks = match obj_get(o, "subtasks"@) {
                None => Some(Seq::<CreatedTaskInfoView>::empty()),
                Some(JVal::Arr(a)) => {
                    proof {
                        lemma_obj_get_decreases(o, "subtasks"@);
                    }
                    dec_created_list(a)
                },
                Some(_) => None,
            };
            if queue is None || summary is None || parent is None || description is None
                || sprint is None || task_type is None || priority is None || followers is None
                || assignee is None || author is None || unique is None || attachment_ids is None
                || subtasks is None {
                None
            } else {
                Some(
                    CreatedTaskInfoView {
                        queue: queue->0,
                        summary: summary->0,
                        parent: parent->0,
                        description: description->0,
                        sprint: sprint->0,
                        task_type: task_type->0,
                        priority: priority->0,
                        followers: followers->0,
                        assignee: assignee->0,
                        author: author->0,
                        unique: unique->0,
                        attachment_ids: attachment_ids->0,
                        subtasks: subtasks->0,
                    },
                )
            }
        },
        _ => None,
    }
}

/// An update from a JSON value, which must be an object.
pub open spec fn dec_updated(v: JVal) -> Option<UpdatedTaskInfoView> {
    match v {
        JVal::Obj(o) => {
            let issue_id = dec_str_or_empty(o, "issue_id"@);
            let summary = dec_opt_str(o, "summary"@);
            let parent = dec_opt_str(o, "parent"@);
            let description = dec_opt_str(o, "description"@);
            let sprint = dec_opt_str(o, "sprint"@);
            let task_type = dec_opt_str(o, "type"@);
            let priority = dec_opt_str(o, "priority"@);
            let followers = dec_str_arr(o, "followers"@);
            let attachment_ids = dec_str_arr(o, "attachmentIds"@);
            let description_attachment_ids = dec_str_arr(o, "descriptionAttachmentIds"@);
            if issue_id is None || summary is None || parent is None || description is None
                || sprint is None || task_type is None || priority is None || followers is None
                || attachment_ids is None || description_attachment_ids is None {
                None
            } else {
                Some(
                    UpdatedTaskInfoView {
                        issue_id: issue_id->0,
                        summary: summary->0,
                        parent: parent->0,
                        description: description->0,
                        sprint: sprint->0,
                        task_type: task_type->0,
                        priority: priority->0,
                        followers: followers->0,
                        attachment_ids: attachment_ids->0,
                        description_attachment_ids: description_attachment_ids->0,
                    },
                )
            }
        },
        _ => None,
    }
}

/// The updates of an array of JSON objects, deduplicated by value.
pub open spec fn dec_updated_list(a: Seq<JVal>) -> Option<Seq<UpdatedTaskInfoView>>
    decreases a,
{
    if a.len() == 0 {
        Some(Seq::empty())
    } else {
        match dec_updated_list(a.drop_last()) {
            Some(p) => match dec_updated(a.last()) {
                Some(t) => if contains_updated(p, t) {
                    Some(p)
                } else {
                    Some(p.push(t))
                },
                None => None,
            },
            None => None,
        }
    }
}

/// A batch from a JSON value: an object whose `created` and `updated`
/// members are both required arrays.
pub open spec fn dec_batch(v: JVal) -> Option<TaskBatchView> {
    match v {
        JVal::Obj(o) => {
            let created = match obj_get(o, "created"@) {
                Some(JVal::Arr(a)) => dec_created_list(a),
                _ => None,
            };
            let updated = match obj_get(o, "updated"@) {
                Some(JVal::Arr(a)) => dec_updated_list(a),
                _ => None,
            };
            if created is None || updated is None {
                None
            } else {
                Some(TaskBatchView { created: created->0, updated: updated->0 })
            }
        },
        _ => None,
    }
}

/// A token from a JSON value: an object whose `access_token` string and
/// `expires_in` number are both required; other members are ignored.
pub open spec fn dec_token(v: JVal) -> Option<TokenResponseView> {
    match v {
        JVal::Obj(o) => {
            match (obj_get(o, "access_token"@), obj_get(o, "expires_in"@)) {
                (Some(JVal::Str(s)), Some(JVal::UInt(n))) => Some(
                    TokenResponseView { access_token: s, expires_in: n },
                ),
                _ => None,
            }
        },
        _ => None,
    }
}

// ---------------------------------------------------------------------------
// The executable encoders.
// ---------------------------------------------------------------------------

fn jv_opt_str(o: &Option<String>) -> (r: JsonValue)
    ensures
        r@ == jopt_str(o.deep_view()),
{
    match o {
        Some(s) => JsonValue::Str(s.clone()),
        None => JsonValue::Null,
    }
}

fn jv_str_vec(v: &Vec<String>) -> (r: JsonValue)
    ensures
        r@ == jstr_arr(v.deep_view()),
{
    let mut out: Vec<JsonValue> = Vec::new();
    let mut i: usize = 0;
    while i < v.len()
        invariant
            0 <= i <= v.len(),
            out@.len() == i,
            forall|j: int| 0 <= j < i ==> out@[j] == JsonValue::Str(v@[j]),
        decreases v.len() - i,
    {
        out.push(JsonValue::Str(v[i].clone()));
        i = i + 1;
    }
    proof {
        lemma_jvals_view(out@);
        assert forall|j: int| 0 <= j < out@.len() implies jvals_view(out@)[j] == strs_to_jvals(
            v.deep_view(),
        )[j] by {
            assert(jvals_view(out@)[j] == jval_view(out@[j]));
        }
        assert(jvals_view(out@) =~= strs_to_jvals(v.deep_view()));
    }
    JsonValue::Arr(out)
}

/// The JSON value of one creation request.
pub fn created_task_to_jval(t: &CreatedTaskInfo) -> (r: JsonValue)
    ensures
        r@ == created_jval(t@),
    decreases *t, 2int,
{
    let subs = created_tasks_to_jvals(&t.subtasks);
    let mut o: Vec<(String, JsonValue)> = Vec::new();
    o.push(("queue".to_owned(), JsonValue::Str(t.queue.clone())));
    o.push(("summary".to_owned(), JsonValue::Str(t.summary.clone())));
    o.push(("parent".to_owned(), jv_opt_str(&t.parent)));
    o.push(("description".to_owned(), jv_opt_str(&t.description)));
    o.push(("sprint".to_owned(), jv_str_vec(&t.sprint)));
    o.push(("type".to_owned(), jv_opt_str(&t.task_type)));
    o.push(("priority".to_owned(), jv_opt_str(&t.priority)));
    o.push(("followers".to_owned(), jv_str_vec(&t.followers)));
    o.push(("assignee".to_owned(), jv_opt_str(&t.assignee)));
    o.push(("author".to_owned(), jv_opt_str(&t.author)));
    o.push(("unique".to_owned(), jv_opt_str(&t.unique)));
    o.push(("attachmentIds".to_owned(), jv_str_vec(&t.attachment_ids)));
    o.push(("subtasks".to_owned(), JsonValue::Arr(subs)));
    let r = JsonValue::Obj(o);
    proof {
        lemma_jobj_view(o@);
        assert(r@ matches JVal::Obj(fields) && fields =~= (created_jval(t@)->Obj_0));
        assert(r@ =~= created_jval(t@));
    }
    r
}

/// The JSON values of a creation list, in order.
fn created_tasks_to_jvals(v: &Vec<CreatedTaskInfo>) -> (r: Vec<JsonValue>)
    ensures
        jvals_view(r@) == created_list_jvals(subtask_views(v@)),
    decreases *v, 1int,
{
    let mut out: Vec<JsonValue> = Vec::new();
    let mut i: usize = 0;
    while i < v.len()
        invariant
            0 <= i <= v.len(),
            out@.len() == i,
            forall|j: int| 0 <= j < i ==> jval_view(#[trigger] out@[j]) == created_jval(v@[j]@),
        decreases v.len() - i,
    {
        proof {
            assert(decreases_to!(*v => v@[i as int]));
        }
        out.push(created_task_to_jval(&v[i]));
        i = i + 1;
    }
    proof {
        lemma_created_list_jvals(subtask_views(v@));
        lemma_jvals_view(out@);
        lemma_subtask_views(v@);
        assert forall|j: int| 0 <= j < out@.len() implies jvals_view(out@)[j]
            == created_list_jvals(subtask_views(v@))[j] by {
            assert(jvals_view(out@)[j] == jval_view(out@[j]));
            assert(subtask_views(v@)[j] == v@[j]@);
        }
        assert(jvals_view(out@) =~= created_list_jvals(subtask_views(v@)));
    }
    out
}

/// The members of an encoded creation list, pointwise.
pub proof fn lemma_created_list_jvals(s: Seq<CreatedTaskInfoView>)
    ensures
        created_list_jvals(s).len() == s.len(),
        forall|i: int| 0 <= i < s.len() ==> created_list_jvals(s)[i] == created_jval(s[i]),
    decreases s,
{
    if s.len() > 0 {
        lemma_created_list_jvals(s.drop_last());
    }
}

/// The JSON value of one update.
pub fn updated_task_to_jval(u: &UpdatedTaskInfo) -> (r: JsonValue)
    ensures
        r@ == updated_jval(u@),
{
    let mut o: Vec<(String, JsonValue)> = Vec::new();
    o.push(("issue_id".to_owned(), JsonValue::Str(u.issue_id.clone())));
    o.push(("summary".to_owned(), jv_opt_str(&u.summary)));
    o.push(("parent".to_owned(), jv_opt_str(&u.parent)));
    o.push(("description".to_owned(), jv_opt_str(&u.description)));
    o.push(("sprint".to_owned(), jv_opt_str(&u.sprint)));
    o.push(("type".to_owned(), jv_opt_str(&u.task_type)));
    o.push(("priority".to_owned(), jv_opt_str(&u.priority)));
    o.push(("followers".to_owned(), jv_str_vec(&u.followers)));
    o.push(("attachmentIds".to_owned(), jv_str_vec(&u.attachment_ids)));
    o.push(("descriptionAttachmentIds".to_owned(), jv_str_vec(&u.description_attachment_ids)));
    let r = JsonValue::Obj(o);
    proof {
        lemma_jobj_view(o@);
        assert(r@ matches JVal::Obj(fields) && fields =~= (updated_jval(u@)->Obj_0));
        assert(r@ =~= updated_jval(u@));
    }
    r
}

/// The JSON value of a whole batch.
pub fn batch_to_jval(b: &TaskBatch) -> (r: JsonValue)
    ensures
        r@ == batch_jval(b@),
{
    let created = created_tasks_to_jvals(&b.created);
    let mut updated: Vec<JsonValue> = Vec::new();
    let mut i: usize = 0;
    while i < b.updated.len()
        invariant
            0 <= i <= b.updated.len(),
            updated@.len() == i,
            forall|j: int|
                0 <= j < i ==> jval_view(#[trigger] updated@[j]) == updated_jval(b.updated@[j]@),
        decreases b.updated.len() - i,
    {
        updated.push(updated_task_to_jval(&b.updated[i]));
        i = i + 1;
    }
    proof {
        lemma_jvals_view(updated@);
        assert forall|j: int| 0 <= j < updated@.len() implies jvals_view(updated@)[j]
            == updated_list_jvals(b@.updated)[j] by {
            assert(jvals_view(updated@)[j] == jval_view(updated@[j]));
        }
        assert(jvals_view(updated@) =~= updated_list_jvals(b@.updated));
    }
    let mut o: Vec<(String, JsonValue)> = Vec::new();
    o.push(("created".to_owned(), JsonValue::Arr(created)));
    o.push(("updated".to_owned(), JsonValue::Arr(updated)));
    let r = JsonValue::Obj(o);
    proof {
        lemma_jobj_view(o@);
        assert(r@ matches JVal::Obj(fields) && fields =~= (batch_jval(b@)->Obj_0));
        assert(r@ =~= batch_jval(b@));
    }
    r
}

/// The JSON value of a cached token.
pub fn token_to_jval(t: &TokenResponse) -> (r: JsonValue)
    ensures
        r@ == token_jval(t@),
{
    let mut o: Vec<(String, JsonValue)> = Vec::new();
    o.push(("access_token".to_owned(), JsonValue::Str(t.access_token.clone())));
    o.push(("expires_in".to_owned(), JsonValue::UInt(t.expires_in)));
    let r = JsonValue::Obj(o);
    proof {
        lemma_jobj_view(o@);
        assert(r@ matches JVal::Obj(fields) && fields =~= (token_jval(t@)->Obj_0));
        assert(r@ =~= token_jval(t@));
    }
    r
}

// ---------------------------------------------------------------------------
// The executable decoders.
// ---------------------------------------------------------------------------

fn obj_get_exec<'a>(o: &'a Vec<(String, JsonValue)>, key: &String) -> (r: Option<&'a JsonValue>)
    ensures
        match r {
            Some(x) => obj_get(jobj_view(o@), key@) == Some(x@) && (exists|i: int|
                0 <= i < o@.len() && *x == o@[i].1),
            None => obj_get(jobj_view(o@), key@) is None,
        },
{
    let ghost fields = jobj_view(o@);
    let mut i: usize = 0;
    proof {
        assert(fields.skip(0) =~= fields);
    }
    while i < o.len()
        invariant
            0 <= i <= o.len(),
            fields == jobj_view(o@),
            obj_get(fields, key@) == obj_get(fields.skip(i as int), key@),
        decreases o.len() - i,
    {
        proof {
            assert(fields.skip(i as int)[0] == (o@[i as int].0@, jval_view(o@[i as int].1)));
            assert(fields.skip(i as int).drop_first() =~= fields.skip(i as int + 1));
        }
        if o[i].0 == *key {
            return Some(&o[i].1);
        }
        i = i + 1;
    }
    proof {
        assert(fields.skip(o@.len() as int) =~= Seq::<(Seq<char>, JVal)>::empty());
    }
    None
}

fn get_str_or_empty(o: &Vec<(String, JsonValue)>, key: &String) -> (r: Option<String>)
    ensures
        match r {
            Some(s) => dec_str_or_empty(jobj_view(o@), key@) == Some(s@),
            None => dec_str_or_empty(jobj_view(o@), key@) is None,
        },
{
    match obj_get_exec(o, key) {
        None => {
            let s = String::new();
            Some(s)
        },
        Some(x) => match x {
            JsonValue::Str(s) => Some(s.clone()),
            _ => None,
        },
    }
}

fn get_opt_str(o: &Vec<(String, JsonValue)>, key: &String) -> (r: Option<Option<String>>)
    ensures
        match r {
            Some(x) => dec_opt_str(jobj_view(o@), key@) == Some(x.deep_view()),
            None => dec_opt_str(jobj_view(o@), key@) is None,
        },
{
    match obj_get_exec(o, key) {
        None => Some(None),
        Some(x) => match x {
            JsonValue::Null => Some(None),
            JsonValue::Str(s) => Some(Some(s.clone())),
            _ => None,
        },
    }
}

proof fn lemma_jvals_to_strs_none(a: Seq<JVal>, k: int)
    requires
        0 <= k < a.len(),
        !(a[k] is Str),
    ensures
        jvals_to_strs(a) is None,
    decreases a,
{
    if k < a.len() - 1 {
        assert(a.drop_last()[k] == a[k]);
        lemma_jvals_to_strs_none(a.drop_last(), k);
    }
}

fn jvals_to_strs_exec(a: &Vec<JsonValue>) -> (r: Option<Vec<String>>)
    ensures
        match r {
            Some(v) => jvals_to_strs(jvals_view(a@)) == Some(v.deep_view()),
            None => jvals_to_strs(jvals_view(a@)) is None,
        },
{
    let ghost vals = jvals_view(a@);
    let mut out: Vec<String> = Vec::new();
    let mut i: usize = 0;
    proof {
        assert(vals.take(0) =~= Seq::<JVal>::empty());
        assert(out.deep_view() =~= Seq::<Seq<char>>::empty());
    }
    while i < a.len()
        invariant
            0 <= i <= a.len(),
            vals == jvals_view(a@),
            out@.len() == i,
            jvals_to_strs(vals.take(i as int)) == Some(out.deep_view()),
        decreases a.len() - i,
    {
        proof {
            assert(vals[i as int] == jval_view(a@[i as int]));
        }
        match &a[i] {
            JsonValue::Str(s) => {
                proof {
                    assert(vals.take(i as int + 1).drop_last() =~= vals.take(i as int));
                    assert(vals.take(i as int + 1).last() == vals[i as int]);
                }
                let ghost prev = out.deep_view();
                out.push(s.clone());
                proof {
                    assert(out.deep_view() =~= prev.push(s@));
                }
                i = i + 1;
            },
            _ => {
                proof {
                    lemma_jvals_to_strs_none(vals, i as int);
                }
                return None;
            },
        }
    }
    proof {
        assert(vals.take(a@.len() as int) =~= vals);
    }
    Some(out)
}

fn get_str_vec(o: &Vec<(String, JsonValue)>, key: &String) -> (r: Option<Vec<String>>)
    ensures
        match r {
            Some(v) => dec_str_arr(jobj_view(o@), key@) == Some(v.deep_view()),
            None => dec_str_arr(jobj_view(o@), key@) is None,
        },
{
    match obj_get_exec(o, key) {
        None => {
            let v: Vec<String> = Vec::new();
            proof {
                assert(v.deep_view() =~= Seq::<Seq<char>>::empty());
            }
            Some(v)
        },
        Some(x) => match x {
            JsonValue::Arr(a) => jvals_to_strs_exec(a),
            _ => None,
        },
    }
}

/// Whether some member of `list` shares its key with `t`.
pub fn contains_created_key_exec(list: &Vec<CreatedTaskInfo>, t: &CreatedTaskInfo) -> (r: bool)
    ensures
        r == contains_created_key(subtask_views(list@), t@),
{
    let mut i: usize = 0;
    proof {
        lemma_subtask_views(list@);
    }
    while i < list.len()
        invariant
            0 <= i <= list.len(),
            subtask_views(list@).len() == list@.len(),
            forall|j: int|
                0 <= j < list@.len() ==> #[trigger] subtask_views(list@)[j] == list@[j]@,
            forall|j: int| 0 <= j < i ==> !#[trigger] created_key_eq(subtask_views(list@)[j], t@),
        decreases list.len() - i,
    {
        if list[i].eq(t) {
            assert(created_key_eq(subtask_views(list@)[i as int], t@));
            return true;
        }
        i = i + 1;
    }
    false
}

proof fn lemma_dec_created_list_none(a: Seq<JVal>, k: int)
    requires
        0 <= k < a.len(),
        dec_created(a[k]) is None,
    ensures
        dec_created_list(a) is None,
    decreases a,
{
    if k < a.len() - 1 {
        assert(a.drop_last()[k] == a[k]);
        lemma_dec_created_list_none(a.drop_last(), k);
    }
}

proof fn lemma_dec_updated_list_none(a: Seq<JVal>, k: int)
    requires
        0 <= k < a.len(),
        dec_updated(a[k]) is None,
    ensures
        dec_updated_list(a) is None,
    decreases a,
{
    if k < a.len() - 1 {
        assert(a.drop_last()[k] == a[k]);
        lemma_dec_updated_list_none(a.drop_last(), k);
    }
}

/// One creation request from a JSON value.
pub fn jval_to_created_task(v: &JsonValue) -> (r: Option<CreatedTaskInfo>)
    ensures
        match r {
            Some(t) => dec_created(v@) == Some(t@),
            None => dec_created(v@) is None,
        },
    decreases *v, 2int,
{
    match v {
        JsonValue::Obj(o) => {
            let queue = get_str_or_empty(o, &"queue".to_owned());
            if queue.is_none() {
                return None;
            }
            let summary = get_str_or_empty(o, &"summary".to_owned());
            if summary.is_none() {
                return None;
            }
            let parent = get_opt_str(o, &"parent".to_owned());
            if parent.is_none() {
                return None;
            }
            let description = get_opt_str(o, &"description".to_owned());
            if description.is_none() {
                return None;
            }
            let sprint = get_str_vec(o, &"sprint".to_owned());
            if sprint.is_none() {
                return None;
            }
            let task_type = get_opt_str(o, &"type".to_owned());
            if task_type.is_none() {
                return None;
            }
            let priority = get_opt_str(o, &"priority".to_owned());
            if priority.is_none() {
                return None;
            }
            let followers = get_str_vec(o, &"followers".to_owned());
            if followers.is_none() {
                return None;
            }
            let assignee = get_opt_str(o, &"assignee".to_owned());
            if assignee.is_none() {
                return None;
            }
            let author = get_opt_str(o, &"author".to_owned());
            if author.is_none() {
                return None;
            }
            let unique = get_opt_str(o, &"unique".to_owned());
            if unique.is_none() {
                return None;
            }
            let attachment_ids = get_str_vec(o, &"attachmentIds".to_owned());
            if attachment_ids.is_none() {
                return None;
            }
            let subtasks: Vec<CreatedTaskInfo> = match obj_get_exec(o, &"subtasks".to_owned()) {
                None => Vec::new(),
                Some(x) => match x {
                    JsonValue::Arr(a) => {
                        proof {
                            let i = choose|i: int| 0 <= i < o@.len() && *x == o@[i].1;
                            assert(decreases_to!(o@[i] => o@[i].1));
                            assert(decreases_to!(*v => *a));
                        }
                        match jvals_to_created_list(a) {
                            Some(ts) => ts,
                            None => {
                                return None;
                            },
                        }
                    },
                    _ => {
                        return None;
                    },
                },
            };
            let t = CreatedTaskInfo {
                queue: queue.unwrap(),
                summary: summary.unwrap(),
                parent: parent.unwrap(),
                description: description.unwrap(),
                sprint: sprint.unwrap(),
                task_type: task_type.unwrap(),
                priority: priority.unwrap(),
                followers: followers.unwrap(),
                assignee: assignee.unwrap(),
                author: author.unwrap(),
                unique: unique.unwrap(),
                attachment_ids: attachment_ids.unwrap(),
                subtasks,
            };
            proof {
                assert(t@ =~= dec_created(v@)->0);
            }
            Some(t)
        },
        _ => None,
    }
}

/// The creation requests of a JSON array, deduplicated by key.
pub fn jvals_to_created_list(a: &Vec<JsonValue>) -> (r: Option<Vec<CreatedTaskInfo>>)
    ensures
        match r {
            Some(ts) => dec_created_list(jvals_view(a@)) == Some(subtask_views(ts@)),
            None => dec_created_list(jvals_view(a@)) is None,
        },
    decreases *a, 1int,
{
    let ghost vals = jvals_view(a@);
    let mut out: Vec<CreatedTaskInfo> = Vec::new();
    let mut i: usize = 0;
    proof {
        lemma_jvals_view(a@);
        assert(vals.take(0) =~= Seq::<JVal>::empty());
        assert(subtask_views(out@) =~= Seq::<CreatedTaskInfoView>::empty());
    }
    while i < a.len()
        invariant
            0 <= i <= a.len(),
            vals == jvals_view(a@),
            vals.len() == a@.len(),
            forall|j: int| 0 <= j < a@.len() ==> vals[j] == jval_view(#[trigger] a@[j]),
            dec_created_list(vals.take(i as int)) == Some(subtask_views(out@)),
        decreases a.len() - i,
    {
        proof {
            assert(decreases_to!(*a => a@[i as int]));
        }
        let t = jval_to_created_task(&a[i]);
        match t {
            None => {
                proof {
                    lemma_dec_created_list_none(vals, i as int);
                }
                return None;
            },
            Some(t) => {
                proof {
                    assert(vals.take(i as int + 1).drop_last() =~= vals.take(i as int));
                    assert(vals.take(i as int + 1).last() == vals[i as int]);
                }
                let dup = contains_created_key_exec(&out, &t);
                let ghost prev_vec = out@;
                let ghost prev = subtask_views(out@);
                if !dup {
                    out.push(t);
                    proof {
                        assert(out@.drop_last() =~= prev_vec);
                        assert(subtask_views(out@) == prev.push(out@.last()@));
                    }
                }
                i = i + 1;
            },
        }
    }
    proof {
        assert(vals.take(a@.len() as int) =~= vals);
    }
    Some(out)
}

/// One update from a JSON value.
pub fn jval_to_updated_task(v: &JsonValue) -> (r: Option<UpdatedTaskInfo>)
    ensures
        match r {
            Some(t) => dec_updated(v@) == Some(t@),
            None => dec_updated(v@) is None,
        },
{
    match v {
        JsonValue::Obj(o) => {
            let issue_id = get_str_or_empty(o, &"issue_id".to_owned());
            if issue_id.is_none() {
                return None;
            }
            let summary = get_opt_str(o, &"summary".to_owned());
            if summary.is_none() {
                return None;
            }
            let parent = get_opt_str(o, &"parent".to_owned());
            if parent.is_none() {
                return None;
            }
            let description = get_opt_str(o, &"description".to_owned());
            if description.is_none() {
                return None;
            }
            let sprint = get_opt_str(o, &"sprint".to_owned());
            if sprint.is_none() {
                return None;
            }
            let task_type = get_opt_str(o, &"type".to_owned());
            if task_type.is_none() {
                return None;
            }
            let priority = get_opt_str(o, &"priority".to_owned());
            if priority.is_none() {
                return None;
            }
            let followers = get_str_vec(o, &"followers".to_owned());
            if followers.is_none() {
                return None;
            }
            let attachment_ids = get_str_vec(o, &"attachmentIds".to_owned());
            if attachment_ids.is_none() {
                return None;
            }
            let description_attachment_ids = get_str_vec(
                o,
                &"descriptionAttachmentIds".to_owned(),
            );
            if description_attachment_ids.is_none() {
                return None;
            }
            let t = UpdatedTaskInfo {
                issue_id: issue_id.unwrap(),
                summary: summary.unwrap(),
                parent: parent.unwrap(),
                description: description.unwrap(),
                sprint: sprint.unwrap(),
                task_type: task_type.unwrap(),
                priority: priority.unwrap(),
                followers: followers.unwrap(),
                attachment_ids: attachment_ids.unwrap(),
                description_attachment_ids: description_attachment_ids.unwrap(),
            };
            proof {
                assert(t@ =~= dec_updated(v@)->0);
            }
            Some(t)
        },
        _ => None,
    }
}

/// Whether `t` occurs in `list`.
fn contains_updated_exec(list: &Vec<UpdatedTaskInfo>, t: &UpdatedTaskInfo) -> (r: bool)
    ensures
        r == contains_updated(updated_views(list@), t@),
{
    let mut i: usize = 0;
    while i < list.len()
        invariant
            0 <= i <= list.len(),
            forall|j: int| 0 <= j < i ==> updated_views(list@)[j] != t@,
        decreases list.len() - i,
    {
        if list[i].eq(t) {
            assert(updated_views(list@)[i as int] == t@);
            return true;
        }
        i = i + 1;
    }
    false
}

/// The updates of a JSON array, deduplicated by value.
pub fn jvals_to_updated_list(a: &Vec<JsonValue>) -> (r: Option<Vec<UpdatedTaskInfo>>)
    ensures
        match r {
            Some(ts) => dec_updated_list(jvals_view(a@)) == Some(updated_views(ts@)),
            None => dec_updated_list(jvals_view(a@)) is None,
        },
{
    let ghost vals = jvals_view(a@);
    let mut out: Vec<UpdatedTaskInfo> = Vec::new();
    let mut i: usize = 0;
    proof {
        lemma_jvals_view(a@);
        assert(vals.take(0) =~= Seq::<JVal>::empty());
        assert(updated_views(out@) =~= Seq::<UpdatedTaskInfoView>::empty());
    }
    while i < a.len()
        invariant
            0 <= i <= a.len(),
            vals == jvals_view(a@),
            vals.len() == a@.len(),
            forall|j: int| 0 <= j < a@.len() ==> vals[j] == jval_view(#[trigger] a@[j]),
            dec_updated_list(vals.take(i as int)) == Some(updated_views(out@)),
        decreases a.len() - i,
    {
        let t = jval_to_updated_task(&a[i]);
        match t {
            None => {
                proof {
                    lemma_dec_updated_list_none(vals, i as int);
                }
                return None;
            },
            Some(t) => {
                proof {
                    assert(vals.take(i as int + 1).drop_last() =~= vals.take(i as int));
                    assert(vals.take(i as int + 1).last() == vals[i as int]);
                }
                let dup = contains_updated_exec(&out, &t);
                let ghost prev = updated_views(out@);
                if !dup {
                    out.push(t);
                    proof {
                        assert(updated_views(out@) =~= prev.push(out@.last()@));
                    }
                }
                i = i + 1;
            },
        }
    }
    proof {
        assert(vals.take(a@.len() as int) =~= vals);
    }
    Some(out)
}

/// A whole batch from a JSON value.
pub fn jval_to_batch(v: &JsonValue) -> (r: Option<TaskBatch>)
    ensures
        match r {
            Some(b) => dec_batch(v@) == Some(b@),
            None => dec_batch(v@) is None,
        },
{
    match v {
        JsonValue::Obj(o) => {
            let created: Vec<CreatedTaskInfo> = match obj_get_exec(o, &"created".to_owned()) {
                Some(x) => match x {
                    JsonValue::Arr(a) => match jvals_to_created_list(a) {
                        Some(ts) => ts,
                        None => {
                            return None;
                        },
                    },
                    _ => {
                        return None;
                    },
                },
                None => {
                    return None;
                },
            };
            let updated: Vec<UpdatedTaskInfo> = match obj_get_exec(o, &"updated".to_owned()) {
                Some(x) => match x {
                    JsonValue::Arr(a) => match jvals_to_updated_list(a) {
                        Some(ts) => ts,
                        None => {
                            return None;
                        },
                    },
                    _ => {
                        return None;
                    },
                },
                None => {
                    return None;
                },
            };
            let b = TaskBatch { created, updated };
            proof {
                assert(b@ =~= dec_batch(v@)->0);
            }
            Some(b)
        },
        _ => None,
    }
}

/// A token from a JSON value.
pub fn jval_to_token(v: &JsonValue) -> (r: Option<TokenResponse>)
    ensures
        match r {
            Some(t) => dec_token(v@) == Some(t@),
            None => dec_token(v@) is None,
        },
{
    match v {
        JsonValue::Obj(o) => {
            let access_token: String = match obj_get_exec(o, &"access_token".to_owned()) {
                Some(x) => match x {
                    JsonValue::Str(s) => s.clone(),
                    _ => {
                        return None;
                    },
                },
                None => {
                    return None;
                },
            };
            let expires_in: u64 = match obj_get_exec(o, &"expires_in".to_owned()) {
                Some(x) => match x {
                    JsonValue::UInt(n) => *n,
                    _ => {
                        return None;
                    },
                },
                None => {
                    return None;
                },
            };
            let t = TokenResponse { access_token, expires_in };
            proof {
                assert(t@ =~= dec_token(v@)->0);
            }
            Some(t)
        },
        _ => None,
    }
}

// ---------------------------------------------------------------------------
// Text-level functions: a whole value to and from JSON text.
// ---------------------------------------------------------------------------

/// The batch a JSON document denotes, if it parses and decodes.
pub open spec fn batch_from_chars(cs: Seq<char>) -> Option<TaskBatchView> {
    match crate::json_parse::parse_document(cs) {
        Some(jv) => dec_batch(jv),
        None => None,
    }
}

/// The creation request a JSON document denotes.
pub open spec fn created_from_chars(cs: Seq<char>) -> Option<CreatedTaskInfoView> {
    match crate::json_parse::parse_document(cs) {
        Some(jv) => dec_created(jv),
        None => None,
    }
}

/// The token a JSON document denotes.
pub open spec fn token_from_chars(cs: Seq<char>) -> Option<TokenResponseView> {
    match crate::json_parse::parse_document(cs) {
        Some(jv) => dec_token(jv),
        None => None,
    }
}

impl TaskBatch {
    /// The checkpoint text of this batch: its canonical JSON document.
    pub fn to_json_string(&self) -> (r: String)
        ensures
            r@ == crate::json::write_jval(batch_jval(self@)),
    {
        let jv = batch_to_jval(self);
        let cs = crate::json::jval_to_chars(&jv);
        crate::json::chars_to_string(&cs)
    }

    /// Reads a batch from JSON text and validates it: the result is the
    /// batch the text denotes when that batch passes validation, a
    /// deserialization error when the text does not parse or decode, and an
    /// invalidity error when it decodes but fails validation.
    pub fn create_from_json(s: &str) -> (r: Result<TaskBatch, crate::task_batch::TaskBatchError>)
        ensures
            (r matches Ok(b) ==> batch_from_chars(s@) == Some(b@)
                && crate::task_batch::batch_is_valid(b@)),
            (r is Ok <==> (batch_from_chars(s@) is Some && crate::task_batch::batch_is_valid(
                batch_from_chars(s@)->0,
            ))),
            ((r matches Err(crate::task_batch::TaskBatchError::DeserializeError)) <==> batch_from_chars(
                s@,
            ) is None),
            ((r matches Err(crate::task_batch::TaskBatchError::InvalidTaskError)) <==> (
            batch_from_chars(s@) is Some && !crate::task_batch::batch_is_valid(
                batch_from_chars(s@)->0,
            ))),
            (r matches Ok(b) ==> crate::task_batch::batch_wf(b@)),
    {
        let cs = crate::json::string_to_chars(s);
        match crate::json_parse::parse_document_chars(&cs) {
            None => Err(crate::task_batch::TaskBatchError::DeserializeError),
            Some(jv) => match jval_to_batch(&jv) {
                None => Err(crate::task_batch::TaskBatchError::DeserializeError),
                Some(b) => {
                    proof {
                        lemma_dec_batch_wf(jv@);
                    }
                    if b.is_valid() {
                        Ok(b)
                    } else {
                        Err(crate::task_batch::TaskBatchError::InvalidTaskError)
                    }
                },
            },
        }
    }
}

impl CreatedTaskInfo {
    /// Reads one creation request from JSON text.
    pub fn create_from_json(s: &str) -> (r: Option<CreatedTaskInfo>)
        ensures
            match r {
                Some(t) => created_from_chars(s@) == Some(t@),
                None => created_from_chars(s@) is None,
            },
    {
        let cs = crate::json::string_to_chars(s);
        match crate::json_parse::parse_document_chars(&cs) {
            None => None,
            Some(jv) => jval_to_created_task(&jv),
        }
    }
}

impl TokenResponse {
    /// The cache text of this token: its canonical JSON document.
    pub fn to_json_string(&self) -> (r: String)
        ensures
            r@ == crate::json::write_jval(token_jval(self@)),
    {
        let jv = token_to_jval(self);
        let cs = crate::json::jval_to_chars(&jv);
        crate::json::chars_to_string(&cs)
    }

    /// Reads a token from JSON text, ignoring members beyond the token and
    /// its expiry.
    pub fn create_from_json(s: &str) -> (r: Option<TokenResponse>)
        ensures
            match r {
                Some(t) => token_from_chars(s@) == Some(t@),
                None => token_from_chars(s@) is None,
            },
    {
        let cs = crate::json::string_to_chars(s);
        match crate::json_parse::parse_document_chars(&cs) {
            None => None,
            Some(jv) => jval_to_token(&jv),
        }
    }
}

// ---------------------------------------------------------------------------
// The request bodies sent to the tracker. An absent optional attribute is
// left out of the object rather than sent as null.
// ---------------------------------------------------------------------------

/// The member list of an optional attribute: one member when present,
/// nothing when absent.
pub open spec fn opt_field(key: Seq<char>, o: Option<Seq<char>>) -> Seq<(Seq<char>, JVal)> {
    match o {
        Some(s) => seq![(key, JVal::Str(s))],
        None => Seq::empty(),
    }
}

/// The JSON object of a creation request body.
pub open spec fn created_body_jval(v: crate::task::CreatedTaskBodyView) -> JVal {
    JVal::Obj(
        seq![("queue"@, JVal::Str(v.queue)), ("summary"@, JVal::Str(v.summary))] + opt_field(
            "parent"@,
            v.parent,
        ) + opt_field("description"@, v.description) + seq![("sprint"@, jstr_arr(v.sprint))]
            + opt_field("type"@, v.task_type) + opt_field("priority"@, v.priority) + seq![
            ("followers"@, jstr_arr(v.followers)),
        ] + opt_field("assignee"@, v.assignee) + opt_field("author"@, v.author) + opt_field(
            "unique"@,
            v.unique,
        ) + seq![("attachmentIds"@, jstr_arr(v.attachment_ids))],
    )
}

/// The JSON object of an update body. The issue id travels in the request
/// URL, not in the body.
pub open spec fn updated_body_jval(v: crate::task::UpdatedTaskView) -> JVal {
    JVal::Obj(
        opt_field("summary"@, v.summary) + opt_field("parent"@, v.parent) + opt_field(
            "description"@,
            v.description,
        ) + opt_field("sprint"@, v.sprint) + opt_field("type"@, v.task_type) + opt_field(
            "priority"@,
            v.priority,
        ) + seq![("followers"@, jstr_arr(v.followers))] + seq![
            ("attachmentIds"@, jstr_arr(v.attachment_ids)),
        ] + seq![("descriptionAttachmentIds"@, jstr_arr(v.description_attachment_ids))],
    )
}

/// Appends an optional attribute's member, if present.
fn push_opt_field(o: &mut Vec<(String, JsonValue)>, key: &str, v: &Option<String>)
    ensures
        jobj_view(final(o)@) == jobj_view(old(o)@) + opt_field(key@, v.deep_view()),
{
    let ghost prev = jobj_view(o@);
    match v {
        Some(s) => {
            let mut key_string = String::new();
            key_string.append(key);
            o.push((key_string, JsonValue::Str(s.clone())));
            proof {
                assert(o@.drop_last() =~= old(o)@);
                assert(jobj_view(o@) =~= prev + opt_field(key@, v.deep_view()));
            }
        },
        None => {
            proof {
                assert(jobj_view(o@) =~= prev + opt_field(key@, v.deep_view()));
            }
        },
    }
}

/// Appends a present member.
fn push_field(o: &mut Vec<(String, JsonValue)>, key: &str, v: JsonValue)
    ensures
        jobj_view(final(o)@) == jobj_view(old(o)@) + seq![(key@, jval_view(v))],
{
    let ghost prev = jobj_view(o@);
    let mut key_string = String::new();
    key_string.append(key);
    o.push((key_string, v));
    proof {
        assert(o@.drop_last() =~= old(o)@);
        assert(jobj_view(o@) =~= prev + seq![(o@.last().0@, jval_view(o@.last().1))]);
    }
}

/// The JSON value of a creation request body.
pub fn created_body_to_jval(b: &crate::task::CreatedTaskBody) -> (r: JsonValue)
    ensures
        r@ == created_body_jval(b@),
{
    let mut o: Vec<(String, JsonValue)> = Vec::new();
    proof {
        assert(jobj_view(o@) =~= Seq::<(Seq<char>, JVal)>::empty());
    }
    push_field(&mut o, "queue", JsonValue::Str(b.queue.clone()));
    push_field(&mut o, "summary", JsonValue::Str(b.summary.clone()));
    push_opt_field(&mut o, "parent", &b.parent);
    push_opt_field(&mut o, "description", &b.description);
    push_field(&mut o, "sprint", jv_str_vec(&b.sprint));
    push_opt_field(&mut o, "type", &b.task_type);
    push_opt_field(&mut o, "priority", &b.priority);
    push_field(&mut o, "followers", jv_str_vec(&b.followers));
    push_opt_field(&mut o, "assignee", &b.assignee);
    push_opt_field(&mut o, "author", &b.author);
    push_opt_field(&mut o, "unique", &b.unique);
    push_field(&mut o, "attachmentIds", jv_str_vec(&b.attachment_ids));
    let r = JsonValue::Obj(o);
    proof {
        assert(r@ matches JVal::Obj(fields) && fields =~= (created_body_jval(b@)->Obj_0));
        assert(r@ =~= created_body_jval(b@));
    }
    r
}

/// The JSON value of an update body.
pub fn updated_body_to_jval(b: &crate::task::UpdatedTask) -> (r: JsonValue)
    ensures
        r@ == updated_body_jval(b@),
{
    let mut o: Vec<(String, JsonValue)> = Vec::new();
    proof {
        assert(jobj_view(o@) =~= Seq::<(Seq<char>, JVal)>::empty());
    }
    push_opt_field(&mut o, "summary", &b.summary);
    push_opt_field(&mut o, "parent", &b.parent);
    push_opt_field(&mut o, "description", &b.description);
    push_opt_field(&mut o, "sprint", &b.sprint);
    push_opt_field(&mut o, "type", &b.task_type);
    push_opt_field(&mut o, "priority", &b.priority);
    push_field(&mut o, "followers", jv_str_vec(&b.followers));
    push_field(&mut o, "attachmentIds", jv_str_vec(&b.attachment_ids));
    push_field(&mut o, "descriptionAttachmentIds", jv_str_vec(&b.description_attachment_ids));
    let r = JsonValue::Obj(o);
    proof {
        assert(r@ matches JVal::Obj(fields) && fields =~= (updated_body_jval(b@)->Obj_0));
        assert(r@ =~= updated_body_jval(b@));
    }
    r
}

// ---------------------------------------------------------------------------
// The tracker's reply bodies.
// ---------------------------------------------------------------------------

/// A required string member: missing or non-string is a decode error.
pub open spec fn dec_str_req(o: Seq<(Seq<char>, JVal)>, key: Seq<char>) -> Option<Seq<char>> {
    match obj_get(o, key) {
        Some(JVal::Str(s)) => Some(s),
        _ => None,
    }
}

/// A required number member within the `u32` range.
pub open spec fn dec_u32_req(o: Seq<(Seq<char>, JVal)>, key: Seq<char>) -> Option<u32> {
    match obj_get(o, key) {
        Some(JVal::UInt(n)) => if n <= u32::MAX as u64 {
            Some(n as u32)
        } else {
            None
        },
        _ => None,
    }
}

/// A status record from a JSON value.
pub open spec fn dec_status(v: JVal) -> Option<crate::success_response::StatusView> {
    match v {
        JVal::Obj(o) => {
            let id = dec_str_req(o, "id"@);
            let key = dec_str_req(o, "key"@);
            let display = dec_str_req(o, "display"@);
            if id is None || key is None || display is None {
                None
            } else {
                Some(
                    crate::success_response::StatusView {
                        id: id->0,
                        key: key->0,
                        display: display->0,
                    },
                )
            }
        },
        _ => None,
    }
}

/// A user record from a JSON value; its URL is carried as `self`.
pub open spec fn dec_user(v: JVal) -> Option<crate::success_response::UserView> {
    match v {
        JVal::Obj(o) => {
            let url = dec_str_req(o, "self"@);
            let id = dec_str_req(o, "id"@);
            let display = dec_str_req(o, "display"@);
            if url is None || id is None || display is None {
                None
            } else {
                Some(
                    crate::success_response::UserView {
                        url: url->0,
                        id: id->0,
                        display: display->0,
                    },
                )
            }
        },
        _ => None,
    }
}

/// A successful reply from a JSON value.
pub open spec fn dec_success(v: JVal) -> Option<crate::success_response::SuccessResponseView> {
    match v {
        JVal::Obj(o) => {
            let url = dec_str_req(o, "self"@);
            let id = dec_str_req(o, "id"@);
            let key = dec_str_req(o, "key"@);
            let version = dec_u32_req(o, "version"@);
            let summary = dec_str_req(o, "summary"@);
            let description = dec_opt_str(o, "description"@);
            let status = match obj_get(o, "status"@) {
                Some(sv) => dec_status(sv),
                None => None,
            };
            let created_by = match obj_get(o, "createdBy"@) {
                Some(uv) => dec_user(uv),
                None => None,
            };
            let created_at = dec_str_req(o, "createdAt"@);
            let updated_at = dec_str_req(o, "updatedAt"@);
            if url is None || id is None || key is None || version is None || summary is None
                || description is None || status is None || created_by is None
                || created_at is None || updated_at is None {
                None
            } else {
                Some(
                    crate::success_response::SuccessResponseView {
                        url: url->0,
                        id: id->0,
                        key: key->0,
                        version: version->0,
                        summary: summary->0,
                        description: description->0,
                        status: status->0,
                        created_by: created_by->0,
                        created_at: created_at->0,
                        updated_at: updated_at->0,
                    },
                )
            }
        },
        _ => None,
    }
}

/// The error details from a JSON value.
pub open spec fn dec_errors_model(v: JVal) -> Option<crate::error_response::ErrorsModelView> {
    match v {
        JVal::Obj(o) => {
            let priority = dec_opt_str(o, "priority"@);
            if priority is None {
                None
            } else {
                Some(crate::error_response::ErrorsModelView { priority: priority->0 })
            }
        },
        _ => None,
    }
}

/// An error reply from a JSON value: its messages are required, its details
/// optional.
pub open spec fn dec_error_response(v: JVal) -> Option<crate::error_response::ErrorResponseView> {
    match v {
        JVal::Obj(o) => {
            let messages = match obj_get(o, "errorMessages"@) {
                Some(JVal::Arr(a)) => jvals_to_strs(a),
                _ => None,
            };
            let details = match obj_get(o, "errors"@) {
                None => Some(None),
                Some(JVal::Null) => Some(None),
                Some(ev) => match dec_errors_model(ev) {
                    Some(m) => Some(Some(m)),
                    None => None,
                },
            };
            let status_code = dec_u32_req(o, "statusCode"@);
            if messages is None || details is None || status_code is None {
                None
            } else {
                Some(
                    crate::error_response::ErrorResponseView {
                        error_messages: messages->0,
                        errors_model: details->0,
                        status_code: status_code->0,
                    },
                )
            }
        },
        _ => None,
    }
}

/// The successful reply a JSON document denotes.
pub open spec fn success_from_chars(cs: Seq<char>) -> Option<
    crate::success_response::SuccessResponseView,
> {
    match crate::json_parse::parse_document(cs) {
        Some(jv) => dec_success(jv),
        None => None,
    }
}

/// The error reply a JSON document denotes.
pub open spec fn error_from_chars(cs: Seq<char>) -> Option<
    crate::error_response::ErrorResponseView,
> {
    match crate::json_parse::parse_document(cs) {
        Some(jv) => dec_error_response(jv),
        None => None,
    }
}

fn get_str_req(o: &Vec<(String, JsonValue)>, key: &String) -> (r: Option<String>)
    ensures
        match r {
            Some(s) => dec_str_req(jobj_view(o@), key@) == Some(s@),
            None => dec_str_req(jobj_view(o@), key@) is None,
        },
{
    match obj_get_exec(o, key) {
        Some(x) => match x {
            JsonValue::Str(s) => Some(s.clone()),
            _ => None,
        },
        None => None,
    }
}

fn get_u32_req(o: &Vec<(String, JsonValue)>, key: &String) -> (r: Option<u32>)
    ensures
        match r {
            Some(n) => dec_u32_req(jobj_view(o@), key@) == Some(n),
            None => dec_u32_req(jobj_view(o@), key@) is None,
        },
{
    match obj_get_exec(o, key) {
        Some(x) => match x {
            JsonValue::UInt(n) => {
                if *n <= u32::MAX as u64 {
                    Some(*n as u32)
                } else {
                    None
                }
            },
            _ => None,
        },
        None => None,
    }
}

fn jval_to_status(v: &JsonValue) -> (r: Option<crate::success_response::Status>)
    ensures
        match r {
            Some(t) => dec_status(v@) == Some(t@),
            None => dec_status(v@) is None,
        },
{
    match v {
        JsonValue::Obj(o) => {
            let id = get_str_req(o, &"id".to_owned());
            if id.is_none() {
                return None;
            }
            let key = get_str_req(o, &"key".to_owned());
            if key.is_none() {
                return None;
            }
            let display = get_str_req(o, &"display".to_owned());
            if display.is_none() {
                return None;
            }
            let t = crate::success_response::Status {
                id: id.unwrap(),
                key: key.unwrap(),
                display: display.unwrap(),
            };
            proof {
                assert(t@ =~= dec_status(v@)->0);
            }
            Some(t)
        },
        _ => None,
    }
}

fn jval_to_user(v: &JsonValue) -> (r: Option<crate::success_response::User>)
    ensures
        match r {
            Some(t) => dec_user(v@) == Some(t@),
            None => dec_user(v@) is None,
        },
{
    match v {
        JsonValue::Obj(o) => {
            let url = get_str_req(o, &"self".to_owned());
            if url.is_none() {
                return None;
            }
            let id = get_str_req(o, &"id".to_owned());
            if id.is_none() {
                return None;
            }
            let display = get_str_req(o, &"display".to_owned());
            if display.is_none() {
                return None;
            }
            let t = crate::success_response::User {
                url: url.unwrap(),
                id: id.unwrap(),
                display: display.unwrap(),
            };
            proof {
                assert(t@ =~= dec_user(v@)->0);
            }
            Some(t)
        },
        _ => None,
    }
}

/// A successful reply from a JSON value.
pub fn jval_to_success(v: &JsonValue) -> (r: Option<crate::success_response::SuccessResponse>)
    ensures
        match r {
            Some(t) => dec_success(v@) == Some(t@),
            None => dec_success(v@) is None,
        },
{
    match v {
        JsonValue::Obj(o) => {
            let url = get_str_req(o, &"self".to_owned());
            if url.is_none() {
                return None;
            }
            let id = get_str_req(o, &"id".to_owned());
            if id.is_none() {
                return None;
            }
            let key = get_str_req(o, &"key".to_owned());
            if key.is_none() {
                return None;
            }
            let version = get_u32_req(o, &"version".to_owned());
            if version.is_none() {
                return None;
            }
            let summary = get_str_req(o, &"summary".to_owned());
            if summary.is_none() {
                return None;
            }
            let description = get_opt_str(o, &"description".to_owned());
            if description.is_none() {
                return None;
            }
            let status: crate::success_response::Status = match obj_get_exec(
                o,
                &"status".to_owned(),
            ) {
                Some(sv) => match jval_to_status(sv) {
                    Some(st) => st,
                    None => {
                        return None;
                    },
                },
                None => {
                    return None;
                },
            };
            let created_by: crate::success_response::User = match obj_get_exec(
                o,
                &"createdBy".to_owned(),
            ) {
                Some(uv) => match jval_to_user(uv) {
                    Some(u) => u,
                    None => {
                        return None;
                    },
                },
                None => {
                    return None;
                },
            };
            let created_at = get_str_req(o, &"createdAt".to_owned());
            if created_at.is_none() {
                return None;
            }
            let updated_at = get_str_req(o, &"updatedAt".to_owned());
            if updated_at.is_none() {
                return None;
            }
            let t = crate::success_response::SuccessResponse {
                url: url.unwrap(),
                id: id.unwrap(),
                key: key.unwrap(),
                version: version.unwrap(),
                summary: summary.unwrap(),
                description: description.unwrap(),
                status,
                created_by,
                created_at: created_at.unwrap(),
                updated_at: updated_at.unwrap(),
            };
            proof {
                assert(t@ =~= dec_success(v@)->0);
            }
            Some(t)
        },
        _ => None,
    }
}

/// An error reply from a JSON value.
pub fn jval_to_error_response(v: &JsonValue) -> (r: Option<crate::error_response::ErrorResponse>)
    ensures
        match r {
            Some(t) => dec_error_response(v@) == Some(t@),
            None => dec_error_response(v@) is None,
        },
{
    match v {
        JsonValue::Obj(o) => {
            let messages: Vec<String> = match obj_get_exec(o, &"errorMessages".to_owned()) {
                Some(x) => match x {
                    JsonValue::Arr(a) => match jvals_to_strs_exec(a) {
                        Some(m) => m,
                        None => {
                            return None;
                        },
                    },
                    _ => {
                        return None;
                    },
                },
                None => {
                    return None;
                },
            };
            let details: Option<crate::error_response::ErrorsModel> = match obj_get_exec(
                o,
                &"errors".to_owned(),
            ) {
                None => None,
                Some(x) => match x {
                    JsonValue::Null => None,
                    JsonValue::Obj(eo) => {
                        let priority = get_opt_str(eo, &"priority".to_owned());
                        if priority.is_none() {
                            return None;
                        }
                        Some(crate::error_response::ErrorsModel { priority: priority.unwrap() })
                    },
                    _ => {
                        return None;
                    },
                },
            };
            let status_code = get_u32_req(o, &"statusCode".to_owned());
            if status_code.is_none() {
                return None;
            }
            let t = crate::error_response::ErrorResponse {
                error_messages: messages,
                errors_model: details,
                status_code: status_code.unwrap(),
            };
            proof {
                assert(t@ =~= dec_error_response(v@)->0);
            }
            Some(t)
        },
        _ => None,
    }
}

/// A successful reply from JSON text.
pub fn success_from_json(s: &str) -> (r: Option<crate::success_response::SuccessResponse>)
    ensures
        match r {
            Some(t) => success_from_chars(s@) == Some(t@),
            None => success_from_chars(s@) is None,
        },
{
    let cs = crate::json::string_to_chars(s);
    match crate::json_parse::parse_document_chars(&cs) {
        None => None,
        Some(jv) => jval_to_success(&jv),
    }
}

/// An error reply from JSON text.
pub fn error_from_json(s: &str) -> (r: Option<crate::error_response::ErrorResponse>)
    ensures
        match r {
            Some(t) => error_from_chars(s@) == Some(t@),
            None => error_from_chars(s@) is None,
        },
{
    let cs = crate::json::string_to_chars(s);
    match crate::json_parse::parse_document_chars(&cs) {
        None => None,
        Some(jv) => jval_to_error_response(&jv),
    }
}

// ---------------------------------------------------------------------------
// Decoding establishes well-formedness: the deduplicating folds only ever
// build duplicate-free lists, at every level of the tree.
// ---------------------------------------------------------------------------

proof fn lemma_dec_created_wf(v: JVal)
    ensures
        dec_created(v) matches Some(t) ==> crate::task_batch::created_task_wf(t),
    decreases v, 2int,
{
    match v {
        JVal::Obj(o) => {
            match obj_get(o, "subtasks"@) {
                None => {
                    assert(crate::task_batch::created_keys_unique(
                        Seq::<CreatedTaskInfoView>::empty(),
                    ));
                    assert(crate::task_batch::created_tasks_wf(
                        Seq::<CreatedTaskInfoView>::empty(),
                    ));
                },
                Some(sv) => {
                    match sv {
                        JVal::Arr(a) => {
                            lemma_obj_get_decreases(o, "subtasks"@);
                            lemma_dec_created_list_wf(a);
                        },
                        _ => {},
                    }
                },
            }
        },
        _ => {},
    }
}

proof fn lemma_dec_created_list_wf(a: Seq<JVal>)
    ensures
        dec_created_list(a) matches Some(s) ==> crate::task_batch::created_keys_unique(s)
            && crate::task_batch::created_tasks_wf(s),
    decreases a, 1int,
{
    if a.len() == 0 {
    } else {
        lemma_dec_created_list_wf(a.drop_last());
        match dec_created_list(a.drop_last()) {
            Some(p) => {
                lemma_dec_created_wf(a.last());
                match dec_created(a.last()) {
                    Some(t) => {
                        if !contains_created_key(p, t) {
                            assert forall|i: int, j: int|
                                0 <= i < j < p.push(t).len() implies !#[trigger] created_key_eq(
                                p.push(t)[i],
                                p.push(t)[j],
                            ) by {
                                if j < p.len() {
                                    assert(p.push(t)[i] == p[i] && p.push(t)[j] == p[j]);
                                } else {
                                    assert(p.push(t)[i] == p[i] && p.push(t)[j] == t);
                                    assert(!created_key_eq(p[i], t));
                                }
                            }
                            assert(p.push(t).drop_last() =~= p);
                            assert(crate::task_batch::created_tasks_wf(p.push(t)));
                        }
                    },
                    None => {},
                }
            },
            None => {},
        }
    }
}

proof fn lemma_dec_updated_list_unique(a: Seq<JVal>)
    ensures
        dec_updated_list(a) matches Some(s) ==> crate::task_batch::updated_unique(s),
    decreases a,
{
    if a.len() > 0 {
        lemma_dec_updated_list_unique(a.drop_last());
        match dec_updated_list(a.drop_last()) {
            Some(p) => {
                match dec_updated(a.last()) {
                    Some(t) => {
                        if !contains_updated(p, t) {
                            assert forall|i: int, j: int|
                                0 <= i < j < p.push(t).len() implies #[trigger] p.push(t)[i]
                                != #[trigger] p.push(t)[j] by {
                                if j < p.len() {
                                    assert(p.push(t)[i] == p[i] && p.push(t)[j] == p[j]);
                                } else {
                                    assert(p.push(t)[i] == p[i] && p.push(t)[j] == t);
                                    assert(!contains_updated(p, t));
                                }
                            }
                        }
                    },
                    None => {},
                }
            },
            None => {},
        }
    }
}

/// Whatever document a batch was read from, the batch is well-formed: both
/// member lists are duplicate-free, the subtask trees included.
pub proof fn lemma_dec_batch_wf(v: JVal)
    ensures
        dec_batch(v) matches Some(b) ==> crate::task_batch::batch_wf(b),
{
    match v {
        JVal::Obj(o) => {
            match obj_get(o, "created"@) {
                Some(cv) => {
                    match cv {
                        JVal::Arr(a) => {
                            lemma_dec_created_list_wf(a);
                        },
                        _ => {},
                    }
                },
                None => {},
            }
            match obj_get(o, "updated"@) {
                Some(uv) => {
                    match uv {
                        JVal::Arr(a) => {
                            lemma_dec_updated_list_unique(a);
                        },
                        _ => {},
                    }
                },
                None => {},
            }
        },
        _ => {},
    }
}

// ---------------------------------------------------------------------------
// The round-trip laws: decoding an encoded value yields the value back.
// ---------------------------------------------------------------------------

/// Looking up the key of member `i` finds member `i`, when no earlier
/// member shares that key.
proof fn lemma_obj_get_at(o: Seq<(Seq<char>, JVal)>, i: int)
    requires
        0 <= i < o.len(),
        forall|j: int| 0 <= j < i ==> (#[trigger] o[j]).0 != o[i].0,
    ensures
        obj_get(o, o[i].0) == Some(o[i].1),
    decreases i,
{
    if i > 0 {
        assert(o[0].0 != o[i].0);
        assert forall|j: int| 0 <= j < i - 1 implies (#[trigger] o.drop_first()[j]).0
            != o.drop_first()[i - 1].0 by {
            assert(o.drop_first()[j] == o[j + 1]);
            assert(o.drop_first()[i - 1] == o[i]);
        }
        lemma_obj_get_at(o.drop_first(), i - 1);
        assert(o.drop_first()[i - 1] == o[i]);
    }
}

proof fn lemma_dec_enc_strs(v: Seq<Seq<char>>)
    ensures
        jvals_to_strs(strs_to_jvals(v)) == Some(v),
    decreases v,
{
    if v.len() == 0 {
        assert(strs_to_jvals(v) =~= Seq::<JVal>::empty());
        assert(Seq::<Seq<char>>::empty() =~= v);
    } else {
        lemma_dec_enc_strs(v.drop_last());
        assert(strs_to_jvals(v).drop_last() =~= strs_to_jvals(v.drop_last()));
        assert(strs_to_jvals(v).last() == JVal::Str(v.last()));
        assert(v.drop_last().push(v.last()) =~= v);
    }
}

/// Decoding the JSON object of a well-formed creation request yields the
/// request back.
#[verifier::rlimit(100)]
proof fn lemma_dec_enc_created(v: CreatedTaskInfoView)
    requires
        crate::task_batch::created_task_wf(v),
    ensures
        dec_created(created_jval(v)) == Some(v),
    decreases v, 2int,
{
    reveal_strlit("queue");
    reveal_strlit("summary");
    reveal_strlit("parent");
    reveal_strlit("description");
    reveal_strlit("sprint");
    reveal_strlit("type");
    reveal_strlit("priority");
    reveal_strlit("followers");
    reveal_strlit("assignee");
    reveal_strlit("author");
    reveal_strlit("unique");
    reveal_strlit("attachmentIds");
    reveal_strlit("subtasks");
    assert(("queue"@).len() == 5);
    assert(("queue"@)[0] == 'q');
    assert(("summary"@).len() == 7);
    assert(("summary"@)[0] == 's');
    assert(("parent"@).len() == 6);
    assert(("parent"@)[0] == 'p');
    assert(("description"@).len() == 11);
    assert(("description"@)[0] == 'd');
    assert(("sprint"@).len() == 6);
    assert(("sprint"@)[0] == 's');
    assert(("type"@).len() == 4);
    assert(("type"@)[0] == 't');
    assert(("priority"@).len() == 8);
    assert(("priority"@)[0] == 'p');
    assert(("followers"@).len() == 9);
    assert(("followers"@)[0] == 'f');
    assert(("assignee"@).len() == 8);
    assert(("assignee"@)[0] == 'a');
    assert(("author"@).len() == 6);
    assert(("author"@)[0] == 'a');
    assert(("unique"@).len() == 6);
    assert(("unique"@)[0] == 'u');
    assert(("attachmentIds"@).len() == 13);
    assert(("attachmentIds"@)[0] == 'a');
    assert(("subtasks"@).len() == 8);
    assert(("subtasks"@)[0] == 's');
    let o = created_jval(v)->Obj_0;
    assert(o.len() == 13);
    assert(o[0].0 == "queue"@);
    assert(o[1].0 == "summary"@);
    assert(o[2].0 == "parent"@);
    assert(o[3].0 == "description"@);
    assert(o[4].0 == "sprint"@);
    assert(o[5].0 == "type"@);
    assert(o[6].0 == "priority"@);
    assert(o[7].0 == "followers"@);
    assert(o[8].0 == "assignee"@);
    assert(o[9].0 == "author"@);
    assert(o[10].0 == "unique"@);
    assert(o[11].0 == "attachmentIds"@);
    assert(o[12].0 == "subtasks"@);
    assert(forall|i: int, j: int| 0 <= j < i < 13 ==> (#[trigger] o[j]).0 != (#[trigger] o[i]).0);
    lemma_obj_get_at(o, 0);
    lemma_obj_get_at(o, 1);
    lemma_obj_get_at(o, 2);
    lemma_obj_get_at(o, 3);
    lemma_obj_get_at(o, 4);
    lemma_obj_get_at(o, 5);
    lemma_obj_get_at(o, 6);
    lemma_obj_get_at(o, 7);
    lemma_obj_get_at(o, 8);
    lemma_obj_get_at(o, 9);
    lemma_obj_get_at(o, 10);
    lemma_obj_get_at(o, 11);
    lemma_obj_get_at(o, 12);
    lemma_dec_enc_strs(v.sprint);
    lemma_dec_enc_strs(v.followers);
    lemma_dec_enc_strs(v.attachment_ids);
    lemma_dec_enc_created_list(v.subtasks);
    assert(obj_get(o, "subtasks"@) == Some(JVal::Arr(created_list_jvals(v.subtasks))));
    assert(dec_created(created_jval(v))->0 =~= v);
}

/// Decoding the JSON array of a duplicate-free list of well-formed creation
/// requests yields the list back: the deduplicating fold drops nothing.
proof fn lemma_dec_enc_created_list(s: Seq<CreatedTaskInfoView>)
    requires
        crate::task_batch::created_keys_unique(s),
        crate::task_batch::created_tasks_wf(s),
    ensures
        dec_created_list(created_list_jvals(s)) == Some(s),
    decreases s, 1int,
{
    if s.len() == 0 {
        assert(created_list_jvals(s) =~= Seq::<JVal>::empty());
        assert(Seq::<CreatedTaskInfoView>::empty() =~= s);
    } else {
        assert forall|i: int, j: int| 0 <= i < j < s.drop_last().len() implies !#[trigger] created_key_eq(
            s.drop_last()[i],
            s.drop_last()[j],
        ) by {
            assert(s.drop_last()[i] == s[i] && s.drop_last()[j] == s[j]);
        }
        lemma_dec_enc_created_list(s.drop_last());
        lemma_dec_enc_created(s.last());
        let a = created_list_jvals(s);
        assert(a.drop_last() =~= created_list_jvals(s.drop_last()));
        assert(a.last() == created_jval(s.last()));
        if contains_created_key(s.drop_last(), s.last()) {
            let i = choose|i: int|
                0 <= i < s.drop_last().len() && #[trigger] created_key_eq(
                    s.drop_last()[i],
                    s.last(),
                );
            assert(created_key_eq(s[i], s[s.len() - 1]));
            assert(false);
        }
        assert(s.drop_last().push(s.last()) =~= s);
    }
}

/// Decoding the JSON object of an update yields the update back.
#[verifier::rlimit(100)]
proof fn lemma_dec_enc_updated(v: UpdatedTaskInfoView)
    ensures
        dec_updated(updated_jval(v)) == Some(v),
{
    reveal_strlit("issue_id");
    reveal_strlit("summary");
    reveal_strlit("parent");
    reveal_strlit("description");
    reveal_strlit("sprint");
    reveal_strlit("type");
    reveal_strlit("priority");
    reveal_strlit("followers");
    reveal_strlit("attachmentIds");
    reveal_strlit("descriptionAttachmentIds");
    assert(("issue_id"@).len() == 8);
    assert(("issue_id"@)[0] == 'i');
    assert(("summary"@).len() == 7);
    assert(("summary"@)[0] == 's');
    assert(("parent"@).len() == 6);
    assert(("parent"@)[0] == 'p');
    assert(("description"@).len() == 11);
    assert(("description"@)[0] == 'd');
    assert(("sprint"@).len() == 6);
    assert(("sprint"@)[0] == 's');
    assert(("type"@).len() == 4);
    assert(("type"@)[0] == 't');
    assert(("priority"@).len() == 8);
    assert(("priority"@)[0] == 'p');
    assert(("followers"@).len() == 9);
    assert(("followers"@)[0] == 'f');
    assert(("attachmentIds"@).len() == 13);
    assert(("attachmentIds"@)[0] == 'a');
    assert(("descriptionAttachmentIds"@).len() == 24);
    assert(("descriptionAttachmentIds"@)[0] == 'd');
    let o = updated_jval(v)->Obj_0;
    assert(o.len() == 10);
    assert(o[0].0 == "issue_id"@);
    assert(o[1].0 == "summary"@);
    assert(o[2].0 == "parent"@);
    assert(o[3].0 == "description"@);
    assert(o[4].0 == "sprint"@);
    assert(o[5].0 == "type"@);
    assert(o[6].0 == "priority"@);
    assert(o[7].0 == "followers"@);
    assert(o[8].0 == "attachmentIds"@);
    assert(o[9].0 == "descriptionAttachmentIds"@);
    assert(forall|i: int, j: int| 0 <= j < i < 10 ==> (#[trigger] o[j]).0 != (#[trigger] o[i]).0);
    lemma_obj_get_at(o, 0);
    lemma_obj_get_at(o, 1);
    lemma_obj_get_at(o, 2);
    lemma_obj_get_at(o, 3);
    lemma_obj_get_at(o, 4);
    lemma_obj_get_at(o, 5);
    lemma_obj_get_at(o, 6);
    lemma_obj_get_at(o, 7);
    lemma_obj_get_at(o, 8);
    lemma_obj_get_at(o, 9);
    lemma_dec_enc_strs(v.followers);
    lemma_dec_enc_strs(v.attachment_ids);
    lemma_dec_enc_strs(v.description_attachment_ids);
    assert(dec_updated(updated_jval(v))->0 =~= v);
}

/// Decoding the JSON array of a duplicate-free update list yields the list
/// back.
proof fn lemma_dec_enc_updated_list(s: Seq<UpdatedTaskInfoView>)
    requires
        crate::task_batch::updated_unique(s),
    ensures
        dec_updated_list(updated_list_jvals(s)) == Some(s),
    decreases s,
{
    if s.len() == 0 {
        assert(updated_list_jvals(s) =~= Seq::<JVal>::empty());
        assert(Seq::<UpdatedTaskInfoView>::empty() =~= s);
    } else {
        assert forall|i: int, j: int| 0 <= i < j < s.drop_last().len() implies #[trigger] s.drop_last()[i]
            != #[trigger] s.drop_last()[j] by {
            assert(s.drop_last()[i] == s[i] && s.drop_last()[j] == s[j]);
        }
        lemma_dec_enc_updated_list(s.drop_last());
        lemma_dec_enc_updated(s.last());
        let a = updated_list_jvals(s);
        assert(a.drop_last() =~= updated_list_jvals(s.drop_last()));
        assert(a.last() == updated_jval(s.last()));
        if contains_updated(s.drop_last(), s.last()) {
            let i = choose|i: int| 0 <= i < s.drop_last().len() && s.drop_last()[i] == s.last();
            assert(s[i] == s[s.len() - 1]);
            assert(false);
        }
        assert(s.drop_last().push(s.last()) =~= s);
    }
}

/// Decoding the JSON object of a well-formed batch yields the batch back.
proof fn lemma_dec_enc_batch(b: TaskBatchView)
    requires
        crate::task_batch::batch_wf(b),
    ensures
        dec_batch(batch_jval(b)) == Some(b),
{
    reveal_strlit("created");
    reveal_strlit("updated");
    assert(("created"@).len() == 7);
    assert(("created"@)[0] == 'c');
    assert(("updated"@).len() == 7);
    assert(("updated"@)[0] == 'u');
    let o = batch_jval(b)->Obj_0;
    assert(o.len() == 2);
    assert(o[0].0 == "created"@);
    assert(o[1].0 == "updated"@);
    assert(o[0].0 != o[1].0);
    lemma_obj_get_at(o, 0);
    lemma_obj_get_at(o, 1);
    lemma_dec_enc_created_list(b.created);
    lemma_dec_enc_updated_list(b.updated);
    assert(dec_batch(batch_jval(b))->0 =~= b);
}

/// The round-trip law of the checkpoint: a well-formed batch, written as
/// its JSON document and read back, is recovered with identical member
/// sets. Well-formed means both member sets are duplicate-free, as the set
/// semantics of a batch guarantees.
pub proof fn lemma_batch_round_trip(b: TaskBatchView)
    requires
        crate::task_batch::batch_wf(b),
    ensures
        batch_from_chars(crate::json::write_jval(batch_jval(b))) == Some(b),
{
    crate::json_laws::lemma_parse_write_document(batch_jval(b));
    lemma_dec_enc_batch(b);
}

/// The round-trip law of the token cache: a token written as its JSON
/// document and read back is recovered exactly.
pub proof fn lemma_token_round_trip(t: TokenResponseView)
    ensures
        token_from_chars(crate::json::write_jval(token_jval(t))) == Some(t),
{
    crate::json_laws::lemma_parse_write_document(token_jval(t));
    reveal_strlit("access_token");
    reveal_strlit("expires_in");
    assert(("access_token"@).len() == 12);
    assert(("access_token"@)[0] == 'a');
    assert(("expires_in"@).len() == 10);
    assert(("expires_in"@)[0] == 'e');
    let o = token_jval(t)->Obj_0;
    assert(o.len() == 2);
    assert(o[0].0 == "access_token"@);
    assert(o[1].0 == "expires_in"@);
    assert(o[0].0 != o[1].0);
    lemma_obj_get_at(o, 0);
    lemma_obj_get_at(o, 1);
    assert(dec_token(token_jval(t))->0 =~= t);
}

} // verus!
