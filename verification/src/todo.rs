//! The todo entity: record shape, status domain, and partial-update form.
use vstd::prelude::*;

use crate::strutil::str_eq;

verus! {

/// Status domain of a todo record: exactly two values are representable,
/// stored under the lowercase literals `open` and `close`.
#[derive(Clone, Copy, Debug, PartialEq, Eq, Structural)]
pub enum TodoStatus {
    Open,
    Close,
}

impl TodoStatus {
    /// The lowercase literal under which this status is stored.
    pub open spec fn store_name(self) -> Seq<char> {
        match self {
            TodoStatus::Open => "open"@,
            TodoStatus::Close => "close"@,
        }
    }
}

/// Serializes a status to the lowercase literal of the store schema.
pub fn status_to_store(s: TodoStatus) -> (r: String)
    ensures
        r@ == s.store_name(),
{
    match s {
        TodoStatus::Open => String::from_str("open"),
        TodoStatus::Close => String::from_str("close"),
    }
}

/// Reads a stored status literal back; any value outside the two-member
/// domain is rejected rather than coerced.
pub fn status_from_store(s: &str) -> (r: Option<TodoStatus>)
    ensures
        (r == Some(TodoStatus::Open)) <==> s@ == "open"@,
        (r == Some(TodoStatus::Close)) <==> s@ == "close"@,
        (r is None) <==> (s@ != "open"@ && s@ != "close"@),
{
    proof {
        reveal_strlit("open");
        reveal_strlit("close");
        assert("open"@.len() == 4);
        assert("close"@.len() == 5);
        assert("open"@ != "close"@);
    }
    if str_eq(s, "open") {
        Some(TodoStatus::Open)
    } else if str_eq(s, "close") {
        Some(TodoStatus::Close)
    } else {
        None
    }
}

/// Mathematical view of a stored todo record.
#[verifier::ext_equal]
pub ghost struct TodoView {
    pub id: int,
    pub cid: int,
    pub title: Seq<char>,
    pub status: TodoStatus,
}

/// A stored todo record, under the fixed projection `id, cid, title, status`.
///
/// `id` is assigned by the store and immutable; `cid` is stamped from the
/// resolved user context at creation time and never accepted as client input.
#[derive(Debug)]
pub struct Todo {
    pub id: i64,
    pub cid: i64,
    pub title: String,
    pub status: TodoStatus,
}

impl View for Todo {
    type V = TodoView;

    open spec fn view(&self) -> TodoView {
        TodoView {
            id: self.id as int,
            cid: self.cid as int,
            title: self.title@,
            status: self.status,
        }
    }
}

impl Todo {
    /// Field-for-field copy of the record.
    pub fn duplicate(&self) -> (r: Todo)
        ensures
            r@ == self@,
    {
        Todo { id: self.id, cid: self.cid, title: self.title.clone(), status: self.status }
    }
}

/// Mathematical view of a partial todo.
#[verifier::ext_equal]
pub ghost struct TodoPatchView {
    pub title: Option<Seq<char>>,
    pub status: Option<TodoStatus>,
}

/// Partial view of a todo used for both create and update; an absent field
/// means "do not set / use the default", not "set to empty".
#[derive(Debug)]
pub struct TodoPatch {
    pub title: Option<String>,
    pub status: Option<TodoStatus>,
}

impl View for TodoPatch {
    type V = TodoPatchView;

    open spec fn view(&self) -> TodoPatchView {
        TodoPatchView {
            title: match self.title {
                Some(t) => Some(t@),
                None => None,
            },
            status: self.status,
        }
    }
}

impl Default for TodoPatch {
    /// The empty patch: no field set.
    fn default() -> (r: TodoPatch)
        ensures
            r@.title is None,
            r@.status is None,
    {
        TodoPatch { title: None, status: None }
    }
}

impl TodoPatch {
    /// Field-for-field copy of the patch.
    pub fn duplicate(&self) -> (r: TodoPatch)
        ensures
            r@ == self@,
    {
        TodoPatch {
            title: match &self.title {
                Some(t) => Some(t.clone()),
                None => None,
            },
            status: self.status,
        }
    }
}

} // verus!
