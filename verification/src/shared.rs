//! The in-memory backend shared across concurrent callers: the store lives
//! behind a reader/writer lock. Reads take the shared lock, writes the
//! exclusive lock, each operation brackets one in-memory computation with no
//! work in between, and every release re-establishes the store's
//! well-formedness. The store itself is never handed out.

use vstd::prelude::*;
use vstd::rwlock::{RwLock, RwLockPredicate};
use crate::RepositoryError;
use crate::domain::{CreateTodo, Label, LabelView, TodoEntity, UpdateTodo, label_views};
use crate::memory::TodoRepositoryForMemory;
use crate::model::{labels_ok, lemma_find_todo, resolve_labels};
use crate::repository::TodoRepository;

verus! {

/// What the lock guards: the store is well formed, and it resolves label
/// ids against the catalog fixed when the lock was created.
pub ghost struct SharedStorePred {
    pub catalog: Seq<LabelView>,
}

impl RwLockPredicate<TodoRepositoryForMemory> for SharedStorePred {
    open spec fn inv(self, v: TodoRepositoryForMemory) -> bool {
        &&& v.inv()
        &&& v.store().catalog == self.catalog
    }
}

/// A todo store that many logical callers may share: every operation
/// acquires the lock, runs one verified store operation, and releases.
/// Between two calls other callers may run, so each contract states only
/// what holds of the result against the fixed catalog, whatever the
/// interleaving.
pub struct SharedTodoRepository {
    lock: RwLock<TodoRepositoryForMemory, SharedStorePred>,
}

impl SharedTodoRepository {
    /// The label catalog fixed at construction.
    pub closed spec fn catalog(&self) -> Seq<LabelView> {
        self.lock.pred().catalog
    }

    /// An empty shared store over the given catalog.
    pub fn new(labels: Vec<Label>) -> (r: Self)
        ensures
            r.catalog() == label_views(labels@),
    {
        let ghost catalog = label_views(labels@);
        let store = TodoRepositoryForMemory::new(labels);
        SharedTodoRepository { lock: RwLock::new(store, Ghost(SharedStorePred { catalog })) }
    }

    /// Stores a new todo: on success the entity carries the command's text,
    /// completed false, and the labels the command's ids resolve to.
    pub fn create(&self, payload: CreateTodo) -> (r: Result<TodoEntity, RepositoryError>)
        ensures
            r matches Ok(t) ==> ({
                &&& t@.text == payload@.text
                &&& !t@.completed
                &&& labels_ok(self.catalog(), payload@.labels)
                &&& t@.labels == resolve_labels(self.catalog(), payload@.labels)
            }),
            !(r matches Err(RepositoryError::NotFound(_))),
    {
        let (mut store, handle) = self.lock.acquire_write();
        let result = store.create(payload);
        handle.release_write(store);
        result
    }

    /// Returns a stored todo with the requested id, or reports it not found.
    pub fn find(&self, id: i32) -> (r: Result<TodoEntity, RepositoryError>)
        ensures
            r matches Ok(t) ==> t@.id == id as int,
            r matches Err(e) ==> e == RepositoryError::NotFound(id),
    {
        let read_handle = self.lock.acquire_read();
        let store = read_handle.borrow();
        let ghost s = store.store();
        let result = store.find(id);
        proof {
            lemma_find_todo(s.todos, id as int);
        }
        read_handle.release_read();
        result
    }

    /// Returns every todo stored at the moment of the read.
    pub fn all(&self) -> (r: Result<Vec<TodoEntity>, RepositoryError>)
        ensures
            r is Ok,
    {
        let read_handle = self.lock.acquire_read();
        let store = read_handle.borrow();
        let result = store.all();
        read_handle.release_read();
        result
    }

    /// Updates a stored todo: on success each supplied field is taken over
    /// exactly, and a supplied label set resolves against the catalog.
    pub fn update(&self, id: i32, payload: UpdateTodo) -> (r: Result<TodoEntity, RepositoryError>)
        ensures
            r matches Ok(t) ==> ({
                &&& t@.id == id as int
                &&& (match payload@.text {
                    Some(tx) => t@.text == tx,
                    None => true,
                })
                &&& (match payload@.completed {
                    Some(b) => t@.completed == b,
                    None => true,
                })
                &&& (match payload@.labels {
                    Some(ids) => t@.labels == resolve_labels(self.catalog(), ids),
                    None => true,
                })
            }),
            r matches Err(RepositoryError::NotFound(i)) ==> i == id,
    {
        let (mut store, handle) = self.lock.acquire_write();
        let ghost s = store.store();
        let result = store.update(id, payload);
        proof {
            lemma_find_todo(s.todos, id as int);
        }
        handle.release_write(store);
        result
    }

    /// Removes a stored todo, or reports the id not found.
    pub fn delete(&self, id: i32) -> (r: Result<(), RepositoryError>)
        ensures
            r matches Err(e) ==> e == RepositoryError::NotFound(id),
    {
        let (mut store, handle) = self.lock.acquire_write();
        let result = store.delete(id);
        handle.release_write(store);
        result
    }
}

} // verus!
