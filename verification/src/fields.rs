//! Parameterized field sets: the data half of the statements the access
//! controller builds, and the exact effect the record store gives them
//! when it applies them to a row of the fixed projection.
use vstd::prelude::*;

use crate::security::UserCtx;
use crate::strutil::str_eq;
use crate::todo::{Todo, TodoPatch, TodoPatchView, TodoStatus, TodoView};

verus! {

/// A value bound to one named column of a statement.
#[derive(Debug)]
pub enum FieldVal {
    Int(i64),
    Text(String),
    Status(TodoStatus),
    /// A raw fragment evaluated by the store itself (a server-side
    /// timestamp), never a client value.
    Raw(String),
}

/// Mathematical view of a bound value.
#[verifier::ext_equal]
pub ghost enum FieldValView {
    Int(int),
    Text(Seq<char>),
    Status(TodoStatus),
    Raw(Seq<char>),
}

impl View for FieldVal {
    type V = FieldValView;

    open spec fn view(&self) -> FieldValView {
        match self {
            FieldVal::Int(v) => FieldValView::Int(*v as int),
            FieldVal::Text(t) => FieldValView::Text(t@),
            FieldVal::Status(st) => FieldValView::Status(*st),
            FieldVal::Raw(t) => FieldValView::Raw(t@),
        }
    }
}

/// One named column with its bound value.
#[derive(Debug)]
pub struct Field {
    pub name: String,
    pub value: FieldVal,
}

/// Mathematical view of a field.
#[verifier::ext_equal]
pub ghost struct FieldView {
    pub name: Seq<char>,
    pub value: FieldValView,
}

impl View for Field {
    type V = FieldView;

    open spec fn view(&self) -> FieldView {
        FieldView { name: self.name@, value: self.value@ }
    }
}

/// The views of a built field list.
pub open spec fn fields_view(s: Seq<Field>) -> Seq<FieldView> {
    s.map_values(|f: Field| f@)
}

/// The field set a patch contributes: its non-absent fields, in the
/// declaration order `title`, `status`.
pub open spec fn patch_fields_spec(p: TodoPatchView) -> Seq<FieldView> {
    (match p.title {
        Some(t) => seq![FieldView { name: "title"@, value: FieldValView::Text(t) }],
        None => Seq::<FieldView>::empty(),
    }) + (match p.status {
        Some(st) => seq![FieldView { name: "status"@, value: FieldValView::Status(st) }],
        None => Seq::<FieldView>::empty(),
    })
}

/// The field set of a create: the patch fields, then the creator id
/// stamped unconditionally from the resolved user context.
pub open spec fn create_fields_spec(p: TodoPatchView, uid: int) -> Seq<FieldView> {
    patch_fields_spec(p).push(FieldView { name: "cid"@, value: FieldValView::Int(uid) })
}

/// The field set of an update: the patch fields, then a modifier id and a
/// server-computed modification time.
pub open spec fn update_fields_spec(p: TodoPatchView, uid: int) -> Seq<FieldView> {
    patch_fields_spec(p) + seq![
        FieldView { name: "mid"@, value: FieldValView::Int(uid) },
        FieldView { name: "ctime"@, value: FieldValView::Raw("now()"@) },
    ]
}

/// What applying one field to a row of the fixed projection yields.
///
/// `id` is never assignable; `mid` and `ctime` are columns outside the
/// projection, so they are accepted without changing the projected row;
/// any other name, or a type mismatch, is a malformed statement.
pub open spec fn apply_field(r: TodoView, f: FieldView) -> Option<TodoView> {
    if f.name == "title"@ {
        match f.value {
            FieldValView::Text(t) => Some(
                TodoView { id: r.id, cid: r.cid, title: t, status: r.status },
            ),
            _ => None,
        }
    } else if f.name == "status"@ {
        match f.value {
            FieldValView::Status(st) => Some(
                TodoView { id: r.id, cid: r.cid, title: r.title, status: st },
            ),
            _ => None,
        }
    } else if f.name == "cid"@ {
        match f.value {
            FieldValView::Int(v) => Some(
                TodoView { id: r.id, cid: v, title: r.title, status: r.status },
            ),
            _ => None,
        }
    } else if f.name == "mid"@ || f.name == "ctime"@ {
        Some(r)
    } else {
        None
    }
}

/// Applying a whole field set, left to right; `None` once any field is
/// malformed.
pub open spec fn apply_fields(r: TodoView, fs: Seq<FieldView>) -> Option<TodoView>
    decreases fs.len(),
{
    if fs.len() == 0 {
        Some(r)
    } else {
        match apply_fields(r, fs.drop_last()) {
            Some(r2) => apply_field(r2, fs.last()),
            None => None,
        }
    }
}

/// The title after a patch: the patch's if present, else the prior one.
pub open spec fn or_title(p: TodoPatchView, t: Seq<char>) -> Seq<char> {
    match p.title {
        Some(x) => x,
        None => t,
    }
}

/// The status after a patch: the patch's if present, else the prior one.
pub open spec fn or_status(p: TodoPatchView, s: TodoStatus) -> TodoStatus {
    match p.status {
        Some(x) => x,
        None => s,
    }
}

/// A row after the non-absent patch fields are applied: `id` and `cid`
/// kept, `title` and `status` taken from the patch where present.
pub open spec fn patched_row(r: TodoView, p: TodoPatchView) -> TodoView {
    TodoView { id: r.id, cid: r.cid, title: or_title(p, r.title), status: or_status(p, r.status) }
}

proof fn lemma_field_name_facts()
    ensures
        "title"@.len() == 5,
        "status"@.len() == 6,
        "cid"@.len() == 3,
        "mid"@.len() == 3,
        "ctime"@.len() == 5,
        "title"@ != "status"@,
        "title"@ != "cid"@,
        "title"@ != "mid"@,
        "title"@ != "ctime"@,
        "status"@ != "cid"@,
        "status"@ != "mid"@,
        "status"@ != "ctime"@,
        "cid"@ != "mid"@,
        "cid"@ != "ctime"@,
        "mid"@ != "ctime"@,
{
    reveal_strlit("title");
    reveal_strlit("status");
    reveal_strlit("cid");
    reveal_strlit("mid");
    reveal_strlit("ctime");
    assert("mid"@[0] == 'm' && "cid"@[0] == 'c');
    assert("ctime"@[0] == 'c' && "title"@[0] == 't');
}

/// If a prefix of a field set is already malformed, so is the whole set.
proof fn lemma_apply_fields_none_prefix(r: TodoView, fs: Seq<FieldView>, k: int)
    requires
        0 <= k <= fs.len(),
        apply_fields(r, fs.take(k)) is None,
    ensures
        apply_fields(r, fs) is None,
    decreases fs.len(),
{
    if k == fs.len() {
        assert(fs.take(k) =~= fs);
    } else {
        assert(fs.take(k) =~= fs.drop_last().take(k));
        lemma_apply_fields_none_prefix(r, fs.drop_last(), k);
    }
}

/// Applying a field set never changes the row's id.
pub proof fn lemma_apply_fields_keeps_id(r: TodoView, fs: Seq<FieldView>)
    ensures
        apply_fields(r, fs) matches Some(v) ==> v.id == r.id,
    decreases fs.len(),
{
    if fs.len() > 0 {
        lemma_apply_fields_keeps_id(r, fs.drop_last());
    }
}

/// The patch fields of `p` patch exactly the non-absent fields.
pub proof fn lemma_apply_patch_fields(r: TodoView, p: TodoPatchView)
    ensures
        apply_fields(r, patch_fields_spec(p)) == Some(patched_row(r, p)),
{
    reveal_with_fuel(apply_fields, 4);
    lemma_field_name_facts();
    let fs = patch_fields_spec(p);
    match (p.title, p.status) {
        (Some(t), Some(st)) => {
            let f1 = FieldView { name: "title"@, value: FieldValView::Text(t) };
            let f2 = FieldView { name: "status"@, value: FieldValView::Status(st) };
            assert(fs =~= seq![f1, f2]);
            assert(fs.drop_last() =~= seq![f1]);
            assert(seq![f1].drop_last() =~= Seq::<FieldView>::empty());
        },
        (Some(t), None) => {
            let f1 = FieldView { name: "title"@, value: FieldValView::Text(t) };
            assert(fs =~= seq![f1]);
            assert(fs.drop_last() =~= Seq::<FieldView>::empty());
        },
        (None, Some(st)) => {
            let f2 = FieldView { name: "status"@, value: FieldValView::Status(st) };
            assert(fs =~= seq![f2]);
            assert(fs.drop_last() =~= Seq::<FieldView>::empty());
        },
        (None, None) => {
            assert(fs =~= Seq::<FieldView>::empty());
        },
    }
}

/// A create's field set builds, from any base row, the patched row with
/// the creator id stamped from the context — whatever the patch held.
pub proof fn lemma_apply_create_fields(r: TodoView, p: TodoPatchView, uid: int)
    ensures
        apply_fields(r, create_fields_spec(p, uid)) == Some(
            TodoView {
                id: r.id,
                cid: uid,
                title: or_title(p, r.title),
                status: or_status(p, r.status),
            },
        ),
{
    reveal_with_fuel(apply_fields, 2);
    lemma_field_name_facts();
    lemma_apply_patch_fields(r, p);
    let fs = create_fields_spec(p, uid);
    assert(fs.drop_last() =~= patch_fields_spec(p));
    assert(fs.last() == FieldView { name: "cid"@, value: FieldValView::Int(uid) });
}

/// An update's field set patches the non-absent fields and leaves the
/// projected row otherwise unchanged: the modifier id and modification
/// time land outside the projection.
pub proof fn lemma_apply_update_fields(r: TodoView, p: TodoPatchView, uid: int)
    ensures
        apply_fields(r, update_fields_spec(p, uid)) == Some(patched_row(r, p)),
{
    reveal_with_fuel(apply_fields, 3);
    lemma_field_name_facts();
    lemma_apply_patch_fields(r, p);
    let fs = update_fields_spec(p, uid);
    let fmid = FieldView { name: "mid"@, value: FieldValView::Int(uid) };
    let fctime = FieldView { name: "ctime"@, value: FieldValView::Raw("now()"@) };
    assert(fs.drop_last() =~= patch_fields_spec(p).push(fmid));
    assert(fs.drop_last().drop_last() =~= patch_fields_spec(p));
    assert(fs.last() == fctime);
    assert(fs.drop_last().last() == fmid);
}

impl TodoPatch {
    /// The field list of the non-absent patch fields, in declaration order.
    pub fn all_fields(&self) -> (r: Vec<Field>)
        ensures
            fields_view(r@) == patch_fields_spec(self@),
    {
        let mut v: Vec<Field> = Vec::new();
        if let Some(t) = &self.title {
            v.push(Field { name: String::from_str("title"), value: FieldVal::Text(t.clone()) });
        }
        if let Some(st) = &self.status {
            v.push(Field { name: String::from_str("status"), value: FieldVal::Status(*st) });
        }
        proof {
            assert(fields_view(v@) =~= patch_fields_spec(self@));
        }
        v
    }
}

/// The field set a create issues: the patch fields, then `cid` stamped
/// from the resolved user context, overriding anything a patch might try.
pub fn create_fields(utx: &UserCtx, patch: &TodoPatch) -> (r: Vec<Field>)
    ensures
        fields_view(r@) == create_fields_spec(patch@, utx.user_id as int),
{
    let mut v = patch.all_fields();
    v.push(Field { name: String::from_str("cid"), value: FieldVal::Int(utx.user_id) });
    proof {
        assert(fields_view(v@) =~= create_fields_spec(patch@, utx.user_id as int));
    }
    v
}

/// The field set an update issues: the patch fields, then the modifier id
/// and a server-computed modification time.
pub fn update_fields(utx: &UserCtx, patch: &TodoPatch) -> (r: Vec<Field>)
    ensures
        fields_view(r@) == update_fields_spec(patch@, utx.user_id as int),
{
    let mut v = patch.all_fields();
    v.push(Field { name: String::from_str("mid"), value: FieldVal::Int(utx.user_id) });
    v.push(Field { name: String::from_str("ctime"), value: FieldVal::Raw(String::from_str("now()")) });
    proof {
        assert(fields_view(v@) =~= update_fields_spec(patch@, utx.user_id as int));
    }
    v
}

/// Applies one field to a row of the fixed projection; `false` means the
/// field was malformed and the row is unchanged.
fn apply_field_exec(row: &mut Todo, f: &Field) -> (ok: bool)
    ensures
        ok ==> apply_field(old(row)@, f@) == Some(final(row)@),
        !ok ==> apply_field(old(row)@, f@) is None && final(row)@ == old(row)@,
{
    proof {
        lemma_field_name_facts();
    }
    if str_eq(f.name.as_str(), "title") {
        match &f.value {
            FieldVal::Text(t) => {
                row.title = t.clone();
                true
            },
            _ => false,
        }
    } else if str_eq(f.name.as_str(), "status") {
        match &f.value {
            FieldVal::Status(st) => {
                row.status = *st;
                true
            },
            _ => false,
        }
    } else if str_eq(f.name.as_str(), "cid") {
        match &f.value {
            FieldVal::Int(v) => {
                row.cid = *v;
                true
            },
            _ => false,
        }
    } else if str_eq(f.name.as_str(), "mid") || str_eq(f.name.as_str(), "ctime") {
        true
    } else {
        false
    }
}

/// Applies a whole field set to a row, left to right; on `false` the
/// field set was malformed (the row is then half-applied and must be
/// discarded by the caller).
#[verifier::loop_isolation(false)]
pub fn apply_fields_exec(row: &mut Todo, fields: &Vec<Field>) -> (ok: bool)
    ensures
        ok ==> apply_fields(old(row)@, fields_view(fields@)) == Some(final(row)@),
        !ok ==> apply_fields(old(row)@, fields_view(fields@)) is None,
{
    let ghost fs = fields_view(fields@);
    let ghost row0 = old(row)@;
    let mut i: usize = 0;
    while i < fields.len()
        invariant
            i <= fields.len(),
            fs == fields_view(fields@),
            fs.len() == fields@.len(),
            apply_fields(row0, fs.take(i as int)) == Some(row@),
        decreases fields.len() - i,
    {
        let ok = apply_field_exec(row, &fields[i]);
        proof {
            assert(fs.take(i as int + 1).drop_last() =~= fs.take(i as int));
            assert(fs.take(i as int + 1).last() == fields@[i as int]@);
        }
        if !ok {
            proof {
                assert(apply_fields(row0, fs.take(i as int + 1).drop_last()) == Some(row@));
                assert(apply_field(row@, fs.take(i as int + 1).last()) is None);
                assert(apply_fields(row0, fs.take(i as int + 1)) is None);
                lemma_apply_fields_none_prefix(row0, fs, i as int + 1);
            }
            return false;
        }
        i += 1;
    }
    proof {
        assert(fs.take(fields@.len() as int) =~= fs);
    }
    true
}

} // verus!
