//! The mathematical model of a todo store: the abstract state that every
//! repository backend presents, the transition of each repository operation,
//! and the laws that relate the operations.

use vstd::prelude::*;
use crate::domain::{CreateTodoView, LabelView, TodoView, UpdateTodoView};

verus! {

/// The abstract state of a todo store: the label catalog the store resolves
/// label ids against, the stored todos in the backend's reporting order, and
/// the next id the store will assign.
pub ghost struct StoreView {
    pub catalog: Seq<LabelView>,
    pub todos: Seq<TodoView>,
    pub next_id: int,
}

/// The abstract state of a label store: the stored labels in the backend's
/// reporting order, and the next id the store will assign.
pub ghost struct LabelStoreView {
    pub labels: Seq<LabelView>,
    pub next_id: int,
}

impl LabelStoreView {
    /// Well-formedness: ids are assigned below the next id and are pairwise
    /// distinct.
    pub open spec fn wf(self) -> bool {
        &&& 1 <= self.next_id
        &&& forall|i: int|
            0 <= i < self.labels.len() ==> 0 < (#[trigger] self.labels[i]).id < self.next_id
        &&& forall|i: int, j: int|
            0 <= i < j < self.labels.len() ==> self.labels[i].id != self.labels[j].id
    }
}

/// Whether some label of the sequence carries the given id.
pub open spec fn contains_label(labels: Seq<LabelView>, id: int) -> bool {
    exists|i: int| 0 <= i < labels.len() && labels[i].id == id
}

/// The first label of the catalog with the given id, if any.
pub open spec fn lookup_label(catalog: Seq<LabelView>, id: int) -> Option<LabelView>
    decreases catalog.len(),
{
    if catalog.len() == 0 {
        None
    } else if catalog[0].id == id {
        Some(catalog[0])
    } else {
        lookup_label(catalog.drop_first(), id)
    }
}

/// Whether every requested label id resolves against the catalog.
pub open spec fn labels_ok(catalog: Seq<LabelView>, ids: Seq<int>) -> bool {
    forall|i: int| 0 <= i < ids.len() ==> lookup_label(catalog, #[trigger] ids[i]) is Some
}

/// The labels the requested ids resolve to, in request order.
pub open spec fn resolve_labels(catalog: Seq<LabelView>, ids: Seq<int>) -> Seq<LabelView> {
    Seq::new(ids.len(), |i: int| lookup_label(catalog, ids[i]).unwrap())
}

/// Whether some stored todo carries the given id.
pub open spec fn contains_todo(todos: Seq<TodoView>, id: int) -> bool {
    exists|i: int| 0 <= i < todos.len() && todos[i].id == id
}

/// The position of the first stored todo with the given id.
pub open spec fn index_of_todo(todos: Seq<TodoView>, id: int) -> int
    decreases todos.len(),
{
    if todos.len() == 0 {
        0
    } else if todos[0].id == id {
        0
    } else {
        1 + index_of_todo(todos.drop_first(), id)
    }
}

/// The first stored todo with the given id, if any.
pub open spec fn find_todo(todos: Seq<TodoView>, id: int) -> Option<TodoView>
    decreases todos.len(),
{
    if todos.len() == 0 {
        None
    } else if todos[0].id == id {
        Some(todos[0])
    } else {
        find_todo(todos.drop_first(), id)
    }
}

impl StoreView {
    /// Well-formedness: ids are assigned below the next id and are pairwise
    /// distinct.
    pub open spec fn wf(self) -> bool {
        &&& 1 <= self.next_id
        &&& forall|i: int|
            0 <= i < self.todos.len() ==> 0 < (#[trigger] self.todos[i]).id < self.next_id
        &&& forall|i: int, j: int|
            0 <= i < j < self.todos.len() ==> self.todos[i].id != self.todos[j].id
    }
}

/// The entity a create command produces on a given store.
pub open spec fn created_todo(s: StoreView, c: CreateTodoView) -> TodoView {
    TodoView {
        id: s.next_id,
        text: c.text,
        completed: false,
        labels: resolve_labels(s.catalog, c.labels),
    }
}

/// The store after a successful create: the new entity appended, the next id
/// advanced.
pub open spec fn store_create(s: StoreView, c: CreateTodoView) -> StoreView {
    StoreView {
        catalog: s.catalog,
        todos: s.todos.push(created_todo(s, c)),
        next_id: s.next_id + 1,
    }
}

/// The entity an update command produces from the current entity: a supplied
/// field replaces the current value, an absent field keeps it.
pub open spec fn merged_todo(current: TodoView, u: UpdateTodoView, catalog: Seq<LabelView>) -> TodoView {
    TodoView {
        id: current.id,
        text: match u.text {
            Some(t) => t,
            None => current.text,
        },
        completed: match u.completed {
            Some(b) => b,
            None => current.completed,
        },
        labels: match u.labels {
            Some(ids) => resolve_labels(catalog, ids),
            None => current.labels,
        },
    }
}

/// The store after a successful update of the given id.
pub open spec fn store_update(s: StoreView, id: int, u: UpdateTodoView) -> StoreView {
    let k = index_of_todo(s.todos, id);
    StoreView {
        catalog: s.catalog,
        todos: s.todos.update(k, merged_todo(s.todos[k], u, s.catalog)),
        next_id: s.next_id,
    }
}

/// The store after a successful delete of the given id.
pub open spec fn store_delete(s: StoreView, id: int) -> StoreView {
    StoreView {
        catalog: s.catalog,
        todos: s.todos.remove(index_of_todo(s.todos, id)),
        next_id: s.next_id,
    }
}

/// What a read of the given id observes.
pub open spec fn store_find(s: StoreView, id: int) -> Option<TodoView> {
    find_todo(s.todos, id)
}

/// `find_todo` returns the todo at `index_of_todo` exactly when some stored
/// todo carries the id, and nothing otherwise.
pub proof fn lemma_find_todo(todos: Seq<TodoView>, id: int)
    ensures
        contains_todo(todos, id) <==> find_todo(todos, id) is Some,
        contains_todo(todos, id) ==> {
            let k = index_of_todo(todos, id);
            &&& 0 <= k < todos.len()
            &&& todos[k].id == id
            &&& find_todo(todos, id) == Some(todos[k])
            &&& forall|m: int| 0 <= m < k ==> todos[m].id != id
        },
    decreases todos.len(),
{
    if todos.len() == 0 {
    } else if todos[0].id == id {
        assert(contains_todo(todos, id));
    } else {
        let rest = todos.drop_first();
        lemma_find_todo(rest, id);
        if contains_todo(todos, id) {
            let w = choose|i: int| 0 <= i < todos.len() && todos[i].id == id;
            assert(rest[w - 1] == todos[w]);
            assert(contains_todo(rest, id));
        }
        if contains_todo(rest, id) {
            let w = choose|i: int| 0 <= i < rest.len() && rest[i].id == id;
            assert(todos[w + 1].id == id);
            assert(contains_todo(todos, id));
        }
        if contains_todo(todos, id) {
            let k = index_of_todo(todos, id);
            assert(k == 1 + index_of_todo(rest, id));
            assert(todos[k] == rest[k - 1]);
            assert forall|m: int| 0 <= m < k implies todos[m].id != id by {
                if m > 0 {
                    assert(todos[m] == rest[m - 1]);
                }
            }
        }
    }
}

/// How `find_todo` reads a store extended by one todo.
proof fn lemma_find_push(todos: Seq<TodoView>, x: TodoView, id: int)
    ensures
        find_todo(todos.push(x), id) == (if find_todo(todos, id) is Some {
            find_todo(todos, id)
        } else if x.id == id {
            Some(x)
        } else {
            None
        }),
    decreases todos.len(),
{
    let p = todos.push(x);
    if todos.len() == 0 {
        assert(p[0] == x);
        assert(p.drop_first() =~= Seq::<TodoView>::empty());
    } else {
        assert(p[0] == todos[0]);
        if todos[0].id != id {
            assert(p.drop_first() =~= todos.drop_first().push(x));
            lemma_find_push(todos.drop_first(), x, id);
        }
    }
}

/// How `find_todo` reads a store with one todo replaced, when ids are
/// pairwise distinct and the replacement keeps the id at its position.
proof fn lemma_find_update(todos: Seq<TodoView>, k: int, x: TodoView, id: int)
    requires
        0 <= k < todos.len(),
        x.id == todos[k].id,
        forall|i: int, j: int| 0 <= i < j < todos.len() ==> todos[i].id != todos[j].id,
    ensures
        find_todo(todos.update(k, x), id) == (if id == x.id {
            Some(x)
        } else {
            find_todo(todos, id)
        }),
    decreases todos.len(),
{
    let u = todos.update(k, x);
    if k == 0 {
        assert(u[0] == x);
        if id == x.id {
        } else {
            assert(u.drop_first() =~= todos.drop_first());
        }
    } else {
        assert(u[0] == todos[0]);
        if todos[0].id == id {
            assert(id != x.id);
        } else {
            assert(u.drop_first() =~= todos.drop_first().update(k - 1, x));
            assert forall|i: int, j: int|
                0 <= i < j < todos.drop_first().len() implies todos.drop_first()[i].id
                != todos.drop_first()[j].id by {
                assert(todos.drop_first()[i] == todos[i + 1]);
                assert(todos.drop_first()[j] == todos[j + 1]);
            }
            lemma_find_update(todos.drop_first(), k - 1, x, id);
        }
    }
}

/// How `find_todo` reads a store with one todo removed, when ids are
/// pairwise distinct.
proof fn lemma_find_remove(todos: Seq<TodoView>, k: int, id: int)
    requires
        0 <= k < todos.len(),
        forall|i: int, j: int| 0 <= i < j < todos.len() ==> todos[i].id != todos[j].id,
    ensures
        find_todo(todos.remove(k), id) == (if todos[k].id == id {
            None::<TodoView>
        } else {
            find_todo(todos, id)
        }),
    decreases todos.len(),
{
    let r = todos.remove(k);
    if k == 0 {
        assert(r =~= todos.drop_first());
        if todos[0].id == id {
            lemma_find_todo(todos.drop_first(), id);
            assert forall|i: int| 0 <= i < todos.drop_first().len()
                implies (#[trigger] todos.drop_first()[i]).id != id by {
                assert(todos.drop_first()[i] == todos[i + 1]);
            }
            assert(!contains_todo(todos.drop_first(), id));
        }
    } else {
        assert(r[0] == todos[0]);
        if todos[0].id == id {
            assert(todos[k].id != id);
        } else {
            assert(r.drop_first() =~= todos.drop_first().remove(k - 1));
            assert forall|i: int, j: int|
                0 <= i < j < todos.drop_first().len() implies todos.drop_first()[i].id
                != todos.drop_first()[j].id by {
                assert(todos.drop_first()[i] == todos[i + 1]);
                assert(todos.drop_first()[j] == todos[j + 1]);
            }
            assert(todos.drop_first()[k - 1] == todos[k]);
            lemma_find_remove(todos.drop_first(), k - 1, id);
        }
    }
}

/// Round-trip law: creating a todo and then finding the id it was given
/// returns exactly the created entity, and every other todo reads as before.
pub proof fn lemma_create_then_find(s: StoreView, c: CreateTodoView)
    requires
        s.wf(),
    ensures
        store_create(s, c).wf(),
        store_find(store_create(s, c), created_todo(s, c).id) == Some(created_todo(s, c)),
        forall|other: int|
            other != created_todo(s, c).id ==> store_find(store_create(s, c), other)
                == store_find(s, other),
{
    let x = created_todo(s, c);
    lemma_find_todo(s.todos, x.id);
    assert(!contains_todo(s.todos, x.id));
    lemma_find_push(s.todos, x, x.id);
    assert forall|other: int|
        other != x.id implies store_find(store_create(s, c), other) == store_find(
        s,
        other,
    ) by {
        lemma_find_push(s.todos, x, other);
        lemma_find_todo(s.todos, other);
    }
}

/// Update partiality law: an update that supplies neither text nor labels
/// changes only the completed field of its target, and touches no other todo.
pub proof fn lemma_update_partial(s: StoreView, id: int, u: UpdateTodoView)
    requires
        s.wf(),
        contains_todo(s.todos, id),
        u.text is None,
        u.labels is None,
    ensures
        store_update(s, id, u).wf(),
        store_find(store_update(s, id, u), id) is Some,
        ({
            let before = store_find(s, id).unwrap();
            let after = store_find(store_update(s, id, u), id).unwrap();
            &&& after.id == before.id
            &&& after.text == before.text
            &&& after.labels == before.labels
            &&& after.completed == (match u.completed {
                Some(b) => b,
                None => before.completed,
            })
        }),
        forall|other: int|
            other != id ==> store_find(store_update(s, id, u), other) == store_find(s, other),
{
    lemma_find_todo(s.todos, id);
    let k = index_of_todo(s.todos, id);
    let x = merged_todo(s.todos[k], u, s.catalog);
    lemma_find_update(s.todos, k, x, id);
    assert forall|other: int|
        other != id implies store_find(store_update(s, id, u), other) == store_find(
        s,
        other,
    ) by {
        lemma_find_update(s.todos, k, x, other);
    }
    assert forall|i: int|
        0 <= i < store_update(s, id, u).todos.len() implies 0 < (#[trigger] store_update(
        s,
        id,
        u,
    ).todos[i]).id < s.next_id by {
        assert(store_update(s, id, u).todos[i].id == s.todos[i].id);
    }
    assert forall|i: int, j: int|
        0 <= i < j < store_update(s, id, u).todos.len() implies store_update(s, id, u).todos[i].id
        != store_update(s, id, u).todos[j].id by {
        assert(store_update(s, id, u).todos[i].id == s.todos[i].id);
        assert(store_update(s, id, u).todos[j].id == s.todos[j].id);
    }
}

/// Delete cascade law: after a successful delete the id reads as absent --
/// its entity is gone together with its label associations -- and every
/// other todo reads as before.
pub proof fn lemma_delete_then_find(s: StoreView, id: int)
    requires
        s.wf(),
        contains_todo(s.todos, id),
    ensures
        store_delete(s, id).wf(),
        store_find(store_delete(s, id), id) is None,
        !contains_todo(store_delete(s, id).todos, id),
        forall|other: int|
            other != id ==> store_find(store_delete(s, id), other) == store_find(s, other),
{
    lemma_find_todo(s.todos, id);
    let k = index_of_todo(s.todos, id);
    lemma_find_remove(s.todos, k, id);
    assert forall|other: int|
        other != id implies store_find(store_delete(s, id), other) == store_find(
        s,
        other,
    ) by {
        lemma_find_remove(s.todos, k, other);
    }
    let r = store_delete(s, id).todos;
    assert forall|i: int| 0 <= i < r.len() implies 0 < (#[trigger] r[i]).id < s.next_id
        && r[i].id != id by {
        if i < k {
            assert(r[i] == s.todos[i]);
        } else {
            assert(r[i] == s.todos[i + 1]);
        }
    }
    assert forall|i: int, j: int| 0 <= i < j < r.len() implies r[i].id != r[j].id by {
        if i < k {
            assert(r[i] == s.todos[i]);
        } else {
            assert(r[i] == s.todos[i + 1]);
        }
        if j < k {
            assert(r[j] == s.todos[j]);
        } else {
            assert(r[j] == s.todos[j + 1]);
        }
    }
    lemma_find_todo(r, id);
}

} // verus!
