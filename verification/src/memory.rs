//! The in-memory backends: a todo store and a label store backed by plain
//! vectors, satisfying the repository capability contracts. They serve as
//! test doubles for the relational backends and as the reference
//! implementation of the store model.

use vstd::prelude::*;
use crate::RepositoryError;
use crate::domain::{
    CreateTodo, Label, TodoEntity, TodoView, UpdateTodo, id_views, label_views,
    position_of_todo, todo_views,
};
use crate::model::{
    LabelStoreView, StoreView, contains_label, contains_todo, created_todo, index_of_todo,
    labels_ok, lemma_find_todo, lookup_label, merged_todo, resolve_labels, store_create,
    store_delete, store_find, store_update,
};
use crate::repository::{LabelRepository, TodoRepository};

verus! {

/// The first label of the vector with the given id, if any.
fn find_label(labels: &Vec<Label>, id: i32) -> (r: Option<Label>)
    ensures
        r matches Some(l) ==> lookup_label(label_views(labels@), id as int) == Some(l@),
        r is None ==> lookup_label(label_views(labels@), id as int) is None,
{
    let ghost cv = label_views(labels@);
    let n = labels.len();
    proof {
        assert(cv.skip(0) =~= cv);
    }
    for k in 0..n
        invariant
            n == labels@.len(),
            cv == label_views(labels@),
            cv.len() == n,
            lookup_label(cv, id as int) == lookup_label(cv.skip(k as int), id as int),
    {
        proof {
            assert(cv.skip(k as int)[0] == cv[k as int]);
            assert(cv[k as int] == labels@[k as int]@);
        }
        if labels[k].id == id {
            return Some(labels[k].clone());
        }
        proof {
            assert(cv.skip(k as int).drop_first() =~= cv.skip(k as int + 1));
        }
    }
    proof {
        assert(cv.skip(n as int) =~= Seq::<crate::domain::LabelView>::empty());
    }
    None
}

/// Resolves every requested label id against the catalog, in request order;
/// reports nothing if any id is unknown.
fn resolve_label_ids(labels: &Vec<Label>, ids: &Vec<i32>) -> (r: Option<Vec<Label>>)
    ensures
        r matches Some(ls) ==> labels_ok(label_views(labels@), id_views(ids@)) && label_views(ls@)
            == resolve_labels(label_views(labels@), id_views(ids@)),
        r is None ==> !labels_ok(label_views(labels@), id_views(ids@)),
{
    let ghost cv = label_views(labels@);
    let ghost idv = id_views(ids@);
    let mut out: Vec<Label> = Vec::new();
    let n = ids.len();
    for k in 0..n
        invariant
            n == ids@.len(),
            cv == label_views(labels@),
            idv == id_views(ids@),
            idv.len() == n,
            out@.len() == k,
            forall|j: int|
                0 <= j < k ==> lookup_label(cv, #[trigger] idv[j]) is Some,
            forall|j: int|
                0 <= j < k ==> (#[trigger] out@[j])@ == lookup_label(cv, idv[j]).unwrap(),
    {
        proof {
            assert(idv[k as int] == ids@[k as int] as int);
        }
        match find_label(labels, ids[k]) {
            Some(l) => {
                out.push(l);
            },
            None => {
                proof {
                    assert(lookup_label(cv, idv[k as int]) is None);
                }
                return None;
            },
        }
    }
    proof {
        assert(label_views(out@) =~= resolve_labels(cv, idv));
    }
    Some(out)
}

/// The in-memory todo backend: a label catalog fixed at construction, the
/// stored todos in creation order, and a monotonic id counter that never
/// reuses an id.
pub struct TodoRepositoryForMemory {
    labels: Vec<Label>,
    todos: Vec<TodoEntity>,
    next_id: i32,
}

impl TodoRepositoryForMemory {
    /// An empty store that resolves label ids against the given catalog.
    pub fn new(labels: Vec<Label>) -> (r: Self)
        ensures
            r.inv(),
            r.store() == (StoreView {
                catalog: label_views(labels@),
                todos: Seq::<TodoView>::empty(),
                next_id: 1,
            }),
    {
        let r = TodoRepositoryForMemory { labels, todos: Vec::new(), next_id: 1 };
        proof {
            assert(todo_views(r.todos@) =~= Seq::<TodoView>::empty());
        }
        r
    }
}

impl TodoRepository for TodoRepositoryForMemory {
    closed spec fn store(&self) -> StoreView {
        StoreView {
            catalog: label_views(self.labels@),
            todos: todo_views(self.todos@),
            next_id: self.next_id as int,
        }
    }

    closed spec fn inv(&self) -> bool {
        self.store().wf()
    }

    fn create(&mut self, payload: CreateTodo) -> (r: Result<TodoEntity, RepositoryError>)
        ensures
            r is Ok <==> (labels_ok(old(self).store().catalog, payload@.labels) && old(
                self,
            ).store().next_id < i32::MAX as int),
            r matches Err(e) ==> e matches RepositoryError::Unexpected(_),
    {
        if self.next_id == i32::MAX {
            return Err(RepositoryError::Unexpected("id space exhausted".to_owned()));
        }
        match resolve_label_ids(&self.labels, &payload.labels) {
            None => Err(
                RepositoryError::Unexpected("a requested label id does not exist".to_owned()),
            ),
            Some(ls) => {
                let ghost s = self.store();
                let todo = TodoEntity {
                    id: self.next_id,
                    text: payload.text,
                    completed: false,
                    labels: ls,
                };
                let result = todo.clone();
                proof {
                    assert(todo@ == created_todo(s, payload@));
                }
                self.todos.push(todo);
                self.next_id = self.next_id + 1;
                proof {
                    broadcast use vstd::prelude::Seq::lemma_push_map_commute;

                    assert(todo_views(self.todos@) =~= s.todos.push(todo@));
                    assert(self.store() == store_create(s, payload@));
                    assert forall|i: int, j: int|
                        0 <= i < j < self.store().todos.len() implies self.store().todos[i].id
                        != self.store().todos[j].id by {
                        if j < s.todos.len() {
                            assert(s.todos[i].id != s.todos[j].id);
                        }
                    }
                    assert(self.store().wf());
                }
                Ok(result)
            },
        }
    }

    fn find(&self, id: i32) -> (r: Result<TodoEntity, RepositoryError>)
        ensures
            r is Ok <==> contains_todo(self.store().todos, id as int),
            r is Err ==> r == Err::<TodoEntity, RepositoryError>(RepositoryError::NotFound(id)),
    {
        let ghost tv = todo_views(self.todos@);
        match position_of_todo(&self.todos, id) {
            Some(k) => {
                let t = self.todos[k].clone();
                proof {
                    assert(tv[k as int] == self.todos@[k as int]@);
                    assert(contains_todo(tv, id as int));
                    lemma_find_todo(tv, id as int);
                    let k0 = index_of_todo(tv, id as int);
                    assert forall|m: int| 0 <= m < k implies tv[m].id != id as int by {
                        assert(forall|m: int|
                            0 <= m < k ==> (#[trigger] self.todos@[m]).id != id);
                        assert(forall|m: int| 0 <= m < k ==> tv[m] == self.todos@[m]@);
                    }
                    assert(k0 == k as int);
                    assert(store_find(self.store(), id as int) == Some(t@));
                }
                Ok(t)
            },
            None => {
                proof {
                    assert forall|m: int|
                        0 <= m < tv.len() implies (#[trigger] tv[m]).id != id as int by {
                        assert(tv[m] == self.todos@[m]@);
                    }
                    assert(!contains_todo(tv, id as int));
                    lemma_find_todo(tv, id as int);
                }
                Err(RepositoryError::NotFound(id))
            },
        }
    }

    fn all(&self) -> (r: Result<Vec<TodoEntity>, RepositoryError>)
        ensures
            r is Ok,
    {
        let mut out: Vec<TodoEntity> = Vec::new();
        let n = self.todos.len();
        for k in 0..n
            invariant
                n == self.todos@.len(),
                out@.len() == k,
                forall|j: int| 0 <= j < k ==> (#[trigger] out@[j])@ == self.todos@[j]@,
        {
            out.push(self.todos[k].clone());
        }
        proof {
            assert(todo_views(out@) =~= todo_views(self.todos@));
        }
        Ok(out)
    }

    fn update(&mut self, id: i32, payload: UpdateTodo) -> (r: Result<TodoEntity, RepositoryError>)
        ensures
            r is Ok <==> (contains_todo(old(self).store().todos, id as int) && (match payload@.labels {
                Some(ids) => labels_ok(old(self).store().catalog, ids),
                None => true,
            })),
            !contains_todo(old(self).store().todos, id as int) ==> r == Err::<
                TodoEntity,
                RepositoryError,
            >(RepositoryError::NotFound(id)),
            contains_todo(old(self).store().todos, id as int) && r is Err ==> r matches Err(
                RepositoryError::Unexpected(_),
            ),
    {
        let ghost s = self.store();
        let ghost tv = s.todos;
        match position_of_todo(&self.todos, id) {
            None => {
                proof {
                    assert forall|m: int|
                        0 <= m < tv.len() implies (#[trigger] tv[m]).id != id as int by {
                        assert(tv[m] == self.todos@[m]@);
                    }
                    assert(!contains_todo(tv, id as int));
                }
                Err(RepositoryError::NotFound(id))
            },
            Some(k) => {
                proof {
                    assert(tv[k as int] == self.todos@[k as int]@);
                    assert(contains_todo(tv, id as int));
                }
                let new_labels: Option<Vec<Label>> = match &payload.labels {
                    Some(ids) => match resolve_label_ids(&self.labels, ids) {
                        Some(ls) => Some(ls),
                        None => {
                            return Err(
                                RepositoryError::Unexpected(
                                    "a requested label id does not exist".to_owned(),
                                ),
                            );
                        },
                    },
                    None => None,
                };
                let current = self.todos.remove(k);
                let merged = TodoEntity {
                    id: current.id,
                    text: match payload.text {
                        Some(t) => t,
                        None => current.text,
                    },
                    completed: match payload.completed {
                        Some(b) => b,
                        None => current.completed,
                    },
                    labels: match new_labels {
                        Some(ls) => ls,
                        None => current.labels,
                    },
                };
                let result = merged.clone();
                proof {
                    lemma_find_todo(tv, id as int);
                    let k0 = index_of_todo(tv, id as int);
                    assert forall|m: int| 0 <= m < k implies tv[m].id != id as int by {
                        assert(forall|m: int|
                            0 <= m < k ==> (#[trigger] self.todos@[m]).id != id);
                    }
                    assert(k0 == k as int);
                    assert(merged@ == merged_todo(tv[k as int], payload@, s.catalog));
                }
                self.todos.insert(k, merged);
                proof {
                    let merged_view = merged_todo(tv[k as int], payload@, s.catalog);
                    assert(self.todos@ =~= old(self).todos@.update(k as int, self.todos@[k as int]));
                    assert(todo_views(self.todos@) =~= tv.update(k as int, merged_view));
                    assert(self.store() == store_update(s, id as int, payload@));
                    assert forall|i: int|
                        0 <= i < self.store().todos.len() implies 0 < (#[trigger] self.store().todos[i]).id
                        < self.store().next_id by {
                        assert(self.store().todos[i].id == tv[i].id);
                    }
                    assert forall|i: int, j: int|
                        0 <= i < j < self.store().todos.len() implies self.store().todos[i].id
                        != self.store().todos[j].id by {
                        assert(self.store().todos[i].id == tv[i].id);
                        assert(self.store().todos[j].id == tv[j].id);
                    }
                }
                Ok(result)
            },
        }
    }

    fn delete(&mut self, id: i32) -> (r: Result<(), RepositoryError>)
        ensures
            r is Ok <==> contains_todo(old(self).store().todos, id as int),
            r is Err ==> r == Err::<(), RepositoryError>(RepositoryError::NotFound(id)),
    {
        let ghost s = self.store();
        let ghost tv = s.todos;
        match position_of_todo(&self.todos, id) {
            None => {
                proof {
                    assert forall|m: int|
                        0 <= m < tv.len() implies (#[trigger] tv[m]).id != id as int by {
                        assert(tv[m] == self.todos@[m]@);
                    }
                    assert(!contains_todo(tv, id as int));
                }
                Err(RepositoryError::NotFound(id))
            },
            Some(k) => {
                proof {
                    assert(tv[k as int] == self.todos@[k as int]@);
                    assert(contains_todo(tv, id as int));
                    lemma_find_todo(tv, id as int);
                    assert forall|m: int| 0 <= m < k implies tv[m].id != id as int by {
                        assert(forall|m: int|
                            0 <= m < k ==> (#[trigger] self.todos@[m]).id != id);
                    }
                    assert(index_of_todo(tv, id as int) == k as int);
                }
                self.todos.remove(k);
                proof {
                    assert(todo_views(self.todos@) =~= tv.remove(k as int));
                    assert(self.store() == store_delete(s, id as int));
                    let r2 = self.store().todos;
                    assert forall|i: int|
                        0 <= i < r2.len() implies 0 < (#[trigger] r2[i]).id < self.store().next_id by {
                        if i < k {
                            assert(r2[i] == tv[i]);
                        } else {
                            assert(r2[i] == tv[i + 1]);
                        }
                    }
                    assert forall|i: int, j: int|
                        0 <= i < j < r2.len() implies r2[i].id != r2[j].id by {
                        if i < k {
                            assert(r2[i] == tv[i]);
                        } else {
                            assert(r2[i] == tv[i + 1]);
                        }
                        if j < k {
                            assert(r2[j] == tv[j]);
                        } else {
                            assert(r2[j] == tv[j + 1]);
                        }
                    }
                }
                Ok(())
            },
        }
    }
}

/// The first label of the vector with the given id, by position.
fn position_of_label(labels: &Vec<Label>, id: i32) -> (r: Option<usize>)
    ensures
        match r {
            Some(i) => i < labels@.len() && labels@[i as int].id == id,
            None => forall|j: int| 0 <= j < labels@.len() ==> (#[trigger] labels@[j]).id != id,
        },
{
    let n = labels.len();
    for i in 0..n
        invariant
            n == labels@.len(),
            forall|j: int| 0 <= j < i ==> (#[trigger] labels@[j]).id != id,
    {
        if labels[i].id == id {
            return Some(i);
        }
    }
    None
}

/// The in-memory label backend: the stored labels in creation order and a
/// monotonic id counter.
pub struct LabelRepositoryForMemory {
    labels: Vec<Label>,
    next_id: i32,
}

impl LabelRepositoryForMemory {
    /// An empty label store.
    pub fn new() -> (r: Self)
        ensures
            r.inv(),
            r.store() == (LabelStoreView { labels: Seq::empty(), next_id: 1 }),
    {
        let r = LabelRepositoryForMemory { labels: Vec::new(), next_id: 1 };
        proof {
            assert(label_views(r.labels@) =~= Seq::<crate::domain::LabelView>::empty());
        }
        r
    }
}

impl LabelRepository for LabelRepositoryForMemory {
    closed spec fn store(&self) -> LabelStoreView {
        LabelStoreView { labels: label_views(self.labels@), next_id: self.next_id as int }
    }

    closed spec fn inv(&self) -> bool {
        self.store().wf()
    }

    fn create(&mut self, name: String) -> (r: Result<Label, RepositoryError>)
        ensures
            r is Ok <==> old(self).store().next_id < i32::MAX as int,
            r matches Err(e) ==> e matches RepositoryError::Unexpected(_),
    {
        if self.next_id == i32::MAX {
            return Err(RepositoryError::Unexpected("id space exhausted".to_owned()));
        }
        let ghost s = self.store();
        let label = Label { id: self.next_id, name };
        let result = label.clone();
        self.labels.push(label);
        self.next_id = self.next_id + 1;
        proof {
            broadcast use vstd::prelude::Seq::lemma_push_map_commute;

            assert(label_views(self.labels@) =~= s.labels.push(result@));
            assert forall|i: int, j: int|
                0 <= i < j < self.store().labels.len() implies self.store().labels[i].id
                != self.store().labels[j].id by {
                if j < s.labels.len() {
                    assert(s.labels[i].id != s.labels[j].id);
                }
            }
        }
        Ok(result)
    }

    fn all(&self) -> (r: Result<Vec<Label>, RepositoryError>)
        ensures
            r is Ok,
    {
        let mut out: Vec<Label> = Vec::new();
        let n = self.labels.len();
        for k in 0..n
            invariant
                n == self.labels@.len(),
                out@.len() == k,
                forall|j: int| 0 <= j < k ==> (#[trigger] out@[j])@ == self.labels@[j]@,
        {
            out.push(self.labels[k].clone());
        }
        proof {
            assert(label_views(out@) =~= label_views(self.labels@));
        }
        Ok(out)
    }

    fn delete(&mut self, id: i32) -> (r: Result<(), RepositoryError>)
        ensures
            r is Ok <==> contains_label(old(self).store().labels, id as int),
            r is Err ==> r == Err::<(), RepositoryError>(RepositoryError::NotFound(id)),
    {
        let ghost s = self.store();
        let ghost lv = s.labels;
        match position_of_label(&self.labels, id) {
            None => {
                proof {
                    assert forall|m: int|
                        0 <= m < lv.len() implies (#[trigger] lv[m]).id != id as int by {
                        assert(lv[m] == self.labels@[m]@);
                    }
                    assert(!contains_label(lv, id as int));
                }
                Err(RepositoryError::NotFound(id))
            },
            Some(k) => {
                proof {
                    assert(lv[k as int] == self.labels@[k as int]@);
                    assert(contains_label(lv, id as int));
                }
                self.labels.remove(k);
                proof {
                    assert(label_views(self.labels@) =~= lv.remove(k as int));
                    let r2 = self.store().labels;
                    assert forall|i: int|
                        0 <= i < r2.len() implies 0 < (#[trigger] r2[i]).id < self.store().next_id by {
                        if i < k {
                            assert(r2[i] == lv[i]);
                        } else {
                            assert(r2[i] == lv[i + 1]);
                        }
                    }
                    assert forall|i: int, j: int|
                        0 <= i < j < r2.len() implies r2[i].id != r2[j].id by {
                        if i < k {
                            assert(r2[i] == lv[i]);
                        } else {
                            assert(r2[i] == lv[i + 1]);
                        }
                        if j < k {
                            assert(r2[j] == lv[j]);
                        } else {
                            assert(r2[j] == lv[j + 1]);
                        }
                    }
                }
                Ok(())
            },
        }
    }
}

} // verus!
