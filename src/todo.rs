use std::collections::HashMap;

use vstd::prelude::*;

use crate::error::RepositoryError;
use crate::label::{copy_labels, label_views, Label, LabelView};
use crate::validate::{check_text, text_check, LengthViolation};

verus! {

broadcast use vstd::std_specs::hash::group_hash_axioms;

/// A todo together with its labels: what read operations return.
#[derive(Debug, Clone, PartialEq, Eq)]
pub struct TodoEntity {
    pub text: String,
    pub id: i32,
    pub completed: bool,
    pub labels: Vec<Label>,
}

/// The mathematical value of a todo entity.
pub struct TodoView {
    pub id: i32,
    pub text: Seq<char>,
    pub completed: bool,
    pub labels: Seq<LabelView>,
}

impl View for TodoEntity {
    type V = TodoView;

    open spec fn view(&self) -> TodoView {
        TodoView {
            id: self.id,
            text: self.text@,
            completed: self.completed,
            labels: label_views(self.labels@),
        }
    }
}

/// A todo as a persisted row: it carries no labels.
#[derive(Debug, Clone, PartialEq, Eq)]
pub struct TodoWithLabelFromRow {
    pub text: String,
    pub id: i32,
    pub completed: bool,
}

/// Payload of a todo creation.
#[derive(Debug, Clone, PartialEq, Eq)]
pub struct CreateTodo {
    pub text: String,
}

/// Payload of a todo update: each field that is present replaces the
/// corresponding attribute, each absent one leaves it as it is.
#[derive(Debug, Clone, PartialEq, Eq)]
pub struct UpdateTodo {
    pub text: Option<String>,
    pub completed: Option<bool>,
    pub labels: Option<Vec<Label>>,
}

/// The todo that a creation with `text` yields under the id `id`.
pub open spec fn new_todo(id: i32, text: Seq<char>) -> TodoView {
    TodoView { id, text, completed: false, labels: Seq::empty() }
}

/// The entity that a row folds into: its scalar fields, and no labels.
pub open spec fn folded(row: TodoWithLabelFromRow) -> TodoView {
    TodoView { id: row.id, text: row.text@, completed: row.completed, labels: Seq::empty() }
}

/// `t` with each field that `p` holds overwritten.
pub open spec fn patched(t: TodoView, p: UpdateTodo) -> TodoView {
    TodoView {
        id: t.id,
        text: match p.text {
            Some(s) => s@,
            None => t.text,
        },
        completed: match p.completed {
            Some(c) => c,
            None => t.completed,
        },
        labels: match p.labels {
            Some(ls) => label_views(ls@),
            None => t.labels,
        },
    }
}

/// The view of an operation's result.
pub open spec fn entity_result(r: Result<TodoEntity, RepositoryError>) -> Result<
    TodoView,
    RepositoryError,
> {
    match r {
        Ok(t) => Ok(t@),
        Err(e) => Err(e),
    }
}

/// What looking up `id` in `todos` yields.
pub open spec fn lookup(todos: Map<i32, TodoView>, id: i32) -> Result<TodoView, RepositoryError> {
    if todos.contains_key(id) {
        Ok(todos[id])
    } else {
        Err(RepositoryError::NotFound(id))
    }
}

/// What updating `id` in `todos` with `p` yields.
pub open spec fn update_result(todos: Map<i32, TodoView>, id: i32, p: UpdateTodo) -> Result<
    TodoView,
    RepositoryError,
> {
    if todos.contains_key(id) {
        Ok(patched(todos[id], p))
    } else {
        Err(RepositoryError::NotFound(id))
    }
}

/// The todos after updating `id` with `p`.
pub open spec fn updated(todos: Map<i32, TodoView>, id: i32, p: UpdateTodo) -> Map<i32, TodoView> {
    if todos.contains_key(id) {
        todos.insert(id, patched(todos[id], p))
    } else {
        todos
    }
}

/// What deleting `id` from `todos` yields.
pub open spec fn delete_result(todos: Map<i32, TodoView>, id: i32) -> Result<(), RepositoryError> {
    if todos.contains_key(id) {
        Ok(())
    } else {
        Err(RepositoryError::NotFound(id))
    }
}

/// Every key of `todos` is the id of the todo stored under it.
pub open spec fn todos_keyed_by_id(todos: Map<i32, TodoView>) -> bool {
    forall|k: i32| #[trigger] todos.contains_key(k) ==> todos[k].id == k
}

/// `s` lists the todos of `todos`, each once, by descending id.
pub open spec fn lists_descending(todos: Map<i32, TodoView>, s: Seq<TodoView>) -> bool {
    &&& forall|i: int, j: int| 0 <= i < j < s.len() ==> s[i].id > s[j].id
    &&& forall|i: int| 0 <= i < s.len() ==> #[trigger] todos.contains_key(s[i].id)
        && todos[s[i].id] == s[i]
    &&& forall|k: i32| #[trigger] todos.contains_key(k) ==> exists|i: int|
        0 <= i < s.len() && #[trigger] s[i].id == k
}

/// The views of a sequence of todo entities.
pub open spec fn todo_views(s: Seq<TodoEntity>) -> Seq<TodoView> {
    s.map_values(|t: TodoEntity| t@)
}

impl TodoEntity {
    /// A todo that is not completed and has no labels.
    pub fn new(id: i32, text: String) -> (r: Self)
        ensures
            r@ == new_todo(id, text@),
    {
        let r = Self { id, text, completed: false, labels: Vec::new() };
        assert(label_views(r.labels@) =~= Seq::<LabelView>::empty());
        r
    }

    /// An independent copy of this entity.
    pub fn copied(&self) -> (r: Self)
        ensures
            r@ == self@,
    {
        TodoEntity {
            text: self.text.clone(),
            id: self.id,
            completed: self.completed,
            labels: copy_labels(&self.labels),
        }
    }
}

impl CreateTodo {
    pub fn new(text: String) -> (r: Self)
        ensures
            r.text@ == text@,
    {
        Self { text }
    }

    /// Checks the length constraint on the text.
    pub fn validate(&self) -> (r: Result<(), LengthViolation>)
        ensures
            r == text_check(self.text@),
    {
        check_text(&self.text)
    }
}

impl UpdateTodo {
    /// Checks the length constraint on the text, when one is given.
    pub fn validate(&self) -> (r: Result<(), LengthViolation>)
        ensures
            r == match self.text {
                Some(t) => text_check(t@),
                None => Ok(()),
            },
    {
        match &self.text {
            Some(t) => check_text(t),
            None => Ok(()),
        }
    }
}

/// Lifts persisted rows into entities, one for one and in order.
pub fn fold_entities(rows: Vec<TodoWithLabelFromRow>) -> (r: Vec<TodoEntity>)
    ensures
        todo_views(r@) == rows@.map_values(|row: TodoWithLabelFromRow| folded(row)),
{
    let mut r: Vec<TodoEntity> = Vec::new();
    let mut i: usize = 0;
    while i < rows.len()
        invariant
            i <= rows@.len(),
            todo_views(r@) == rows@.subrange(0, i as int).map_values(
                |row: TodoWithLabelFromRow| folded(row),
            ),
        decreases rows@.len() - i,
    {
        let row = &rows[i];
        let e = TodoEntity {
            text: row.text.clone(),
            id: row.id,
            completed: row.completed,
            labels: Vec::new(),
        };
        assert(label_views(e.labels@) =~= Seq::<LabelView>::empty());
        assert(e@ =~= folded(rows@[i as int]));
        let ghost prev = r@;
        r.push(e);
        assert(todo_views(r@) =~= todo_views(prev).push(e@));
        i = i + 1;
        assert(todo_views(r@) =~= rows@.subrange(0, i as int).map_values(
            |row: TodoWithLabelFromRow| folded(row),
        ));
    }
    assert(rows@.subrange(0, rows@.len() as int) =~= rows@);
    r
}

/// Lifts one persisted row into an entity.
pub fn fold_entity(row: TodoWithLabelFromRow) -> (r: TodoEntity)
    ensures
        r@ == folded(row),
{
    let ghost g = row;
    let mut rows: Vec<TodoWithLabelFromRow> = Vec::new();
    rows.push(row);
    let todos = fold_entities(rows);
    assert(rows@.map_values(|row: TodoWithLabelFromRow| folded(row)).len() == 1);
    assert(todo_views(todos@).len() == todos@.len());
    assert(todo_views(todos@)[0] == folded(g));
    todos[0].copied()
}

/// Merges an update into the current entity: each field present in `payload`
/// overwrites, each absent one keeps the current value.
pub fn apply_update(current: TodoEntity, payload: UpdateTodo) -> (r: TodoEntity)
    ensures
        r@ == patched(current@, payload),
{
    let TodoEntity { text, id, completed, labels } = current;
    let UpdateTodo { text: new_text, completed: new_completed, labels: new_labels } = payload;
    TodoEntity {
        id,
        text: match new_text {
            Some(t) => t,
            None => text,
        },
        completed: match new_completed {
            Some(c) => c,
            None => completed,
        },
        labels: match new_labels {
            Some(ls) => ls,
            None => labels,
        },
    }
}

/// Access to stored todos, shared by every backing store.
pub trait TodoRepository: Sized {
    /// The store's internal consistency.
    spec fn inv(&self) -> bool;

    /// The stored todos, keyed by id.
    spec fn todos(&self) -> Map<i32, TodoView>;

    /// The id that the next successful `create` assigns.
    spec fn fresh_id(&self) -> i32;

    /// Adds a todo that is not completed and has no labels.
    fn create(&mut self, payload: CreateTodo) -> (r: Result<TodoEntity, RepositoryError>)
        requires
            old(self).inv(),
        ensures
            final(self).inv(),
            todos_keyed_by_id(final(self).todos()),
            r is Ok <==> old(self).fresh_id() < i32::MAX,
            r is Ok ==> {
                &&& r->Ok_0@ == new_todo(old(self).fresh_id(), payload.text@)
                &&& !old(self).todos().contains_key(old(self).fresh_id())
                &&& final(self).todos() == old(self).todos().insert(
                    old(self).fresh_id(),
                    r->Ok_0@,
                )
                &&& final(self).fresh_id() > old(self).fresh_id()
            },
            r is Err ==> final(self).todos() == old(self).todos() && final(self).fresh_id()
                == old(self).fresh_id() && !(r->Err_0 is NotFound) && !(r->Err_0 is Duplicate),
    ;

    /// The todo `id`.
    fn find(&self, id: i32) -> (r: Result<TodoEntity, RepositoryError>)
        requires
            self.inv(),
        ensures
            entity_result(r) == lookup(self.todos(), id),
    ;

    /// Every stored todo, most recently created first.
    fn all(&self) -> (r: Vec<TodoEntity>)
        requires
            self.inv(),
        ensures
            lists_descending(self.todos(), todo_views(r@)),
    ;

    /// Merges `payload` into the todo `id`.
    fn update(&mut self, id: i32, payload: UpdateTodo) -> (r: Result<TodoEntity, RepositoryError>)
        requires
            old(self).inv(),
        ensures
            final(self).inv(),
            todos_keyed_by_id(final(self).todos()),
            final(self).fresh_id() == old(self).fresh_id(),
            entity_result(r) == update_result(old(self).todos(), id, payload),
            final(self).todos() == updated(old(self).todos(), id, payload),
    ;

    /// Removes the todo `id`.
    fn delete(&mut self, id: i32) -> (r: Result<(), RepositoryError>)
        requires
            old(self).inv(),
        ensures
            final(self).inv(),
            final(self).fresh_id() == old(self).fresh_id(),
            r == delete_result(old(self).todos(), id),
            final(self).todos() == old(self).todos().remove(id),
    ;
}

/// Todos held in process memory, with ids drawn from a counter that never
/// goes back, so an id is never handed out twice.
#[derive(Debug, Clone)]
pub struct TodoRepositoryForMemory {
    store: HashMap<i32, TodoEntity>,
    next_id: i32,
}

impl TodoRepositoryForMemory {
    pub fn new() -> (r: Self)
        ensures
            r.inv(),
            r.todos() == Map::<i32, TodoView>::empty(),
            r.fresh_id() == 1,
    {
        let r = TodoRepositoryForMemory { store: HashMap::new(), next_id: 1 };
        assert(r.todos() =~= Map::<i32, TodoView>::empty());
        r
    }
}

impl TodoRepository for TodoRepositoryForMemory {
    closed spec fn inv(&self) -> bool {
        &&& 1 <= self.next_id
        &&& forall|k: i32| #[trigger]
            self.store@.contains_key(k) ==> 1 <= k < self.next_id && self.store@[k].id == k
    }

    closed spec fn todos(&self) -> Map<i32, TodoView> {
        self.store@.map_values(|t: TodoEntity| t@)
    }

    closed spec fn fresh_id(&self) -> i32 {
        self.next_id
    }

    fn create(&mut self, payload: CreateTodo) -> (r: Result<TodoEntity, RepositoryError>) {
        if self.next_id == i32::MAX {
            return Err(RepositoryError::Unexpected("todo ids are exhausted".to_string()));
        }
        let id = self.next_id;
        let todo = TodoEntity::new(id, payload.text);
        self.store.insert(id, todo.copied());
        self.next_id = id + 1;
        assert(self.todos() =~= old(self).todos().insert(id, todo@));
        Ok(todo)
    }

    fn find(&self, id: i32) -> (r: Result<TodoEntity, RepositoryError>) {
        match self.store.get(&id) {
            Some(t) => Ok(t.copied()),
            None => Err(RepositoryError::NotFound(id)),
        }
    }

    fn all(&self) -> (r: Vec<TodoEntity>) {
        let mut r: Vec<TodoEntity> = Vec::new();
        let mut k: i32 = self.next_id - 1;
        while k >= 1
            invariant
                self.inv(),
                0 <= k < self.next_id,
                forall|i: int, j: int| 0 <= i < j < r@.len() ==> r@[i].id > r@[j].id,
                forall|i: int| 0 <= i < r@.len() ==> r@[i].id > k,
                forall|i: int| 0 <= i < r@.len() ==> #[trigger] self.store@.contains_key(r@[i].id)
                    && self.store@[r@[i].id]@ == r@[i]@ && r@[i].id == r@[i]@.id,
                forall|j: i32| k < j < self.next_id && #[trigger] self.store@.contains_key(j)
                    ==> exists|i: int| 0 <= i < r@.len() && #[trigger] r@[i].id == j,
            decreases k,
        {
            let ghost prev = r@;
            match self.store.get(&k) {
                Some(t) => {
                    r.push(t.copied());
                    assert(r@[r@.len() - 1].id == k);
                },
                None => {},
            }
            assert forall|j: i32| k <= j < self.next_id && #[trigger] self.store@.contains_key(j)
                implies exists|i: int| 0 <= i < r@.len() && #[trigger] r@[i].id == j by {
                if j > k {
                    let i = choose|i: int| 0 <= i < prev.len() && #[trigger] prev[i].id == j;
                    assert(r@[i] == prev[i]);
                } else {
                    assert(r@[r@.len() - 1].id == j);
                }
            }
            k = k - 1;
        }
        let ghost s = todo_views(r@);
        assert forall|k: i32| #[trigger] self.todos().contains_key(k) implies exists|i: int|
            0 <= i < s.len() && #[trigger] s[i].id == k by {
            let i = choose|i: int| 0 <= i < r@.len() && #[trigger] r@[i].id == k;
            assert(s[i].id == k);
        }
        r
    }

    fn update(&mut self, id: i32, payload: UpdateTodo) -> (r: Result<TodoEntity, RepositoryError>) {
        let current = match self.store.get(&id) {
            Some(t) => t.copied(),
            None => {
                return Err(RepositoryError::NotFound(id));
            },
        };
        let todo = apply_update(current, payload);
        self.store.insert(id, todo.copied());
        assert(self.todos() =~= updated(old(self).todos(), id, payload));
        Ok(todo)
    }

    fn delete(&mut self, id: i32) -> (r: Result<(), RepositoryError>) {
        match self.store.remove(&id) {
            Some(_) => {
                assert(self.todos() =~= old(self).todos().remove(id));
                Ok(())
            },
            None => {
                assert(self.todos() =~= old(self).todos().remove(id));
                Err(RepositoryError::NotFound(id))
            },
        }
    }
}

} // verus!
