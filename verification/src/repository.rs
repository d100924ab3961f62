//! The repository capability contracts: the operations every todo backend
//! and every label backend must offer, with their behaviour stated over the
//! abstract store models. Callers written against these traits work with any
//! backend.

use vstd::prelude::*;
use crate::RepositoryError;
use crate::domain::{CreateTodo, Label, TodoEntity, UpdateTodo, todo_views, label_views};
use crate::model::{
    LabelStoreView, StoreView, contains_todo, created_todo, merged_todo, store_create,
    store_delete, store_find, store_update,
};

verus! {

/// The capability contract for todo storage. An implementation presents an
/// abstract store; each operation either performs its transition on that
/// store exactly, or fails and leaves the store as it was -- a failure never
/// leaves a partial write behind. The "not found" outcome is distinguished:
/// it is reported only for the requested id, and only when that id is truly
/// absent.
pub trait TodoRepository: Sized {
    /// The abstract store this backend presents.
    spec fn store(&self) -> StoreView;

    /// The backend's internal validity; constructors establish it and every
    /// operation preserves it.
    spec fn inv(&self) -> bool;

    /// Stores a new todo built from the command: the next id, the command's
    /// text, completed false, and the labels its ids resolve to.
    fn create(&mut self, payload: CreateTodo) -> (r: Result<TodoEntity, RepositoryError>)
        requires
            old(self).inv(),
        ensures
            final(self).inv(),
            r matches Ok(t) ==> t@ == created_todo(old(self).store(), payload@) && final(self).store() == store_create(old(self).store(), payload@),
            r is Err ==> final(self).store() == old(self).store(),
            !(r matches Err(RepositoryError::NotFound(_))),
    ;

    /// Returns the stored todo with the given id, or reports it not found.
    fn find(&self, id: i32) -> (r: Result<TodoEntity, RepositoryError>)
        requires
            self.inv(),
        ensures
            r matches Ok(t) ==> store_find(self.store(), id as int) == Some(t@),
            r matches Err(RepositoryError::NotFound(i)) ==> i == id && store_find(
                self.store(),
                id as int,
            ) is None,
    ;

    /// Returns every stored todo, in the backend's deterministic order.
    fn all(&self) -> (r: Result<Vec<TodoEntity>, RepositoryError>)
        requires
            self.inv(),
        ensures
            r matches Ok(ts) ==> todo_views(ts@) == self.store().todos,
    ;

    /// Replaces the fields the command supplies on the stored todo with the
    /// given id and keeps the fields it omits, or reports the id not found.
    fn update(&mut self, id: i32, payload: UpdateTodo) -> (r: Result<TodoEntity, RepositoryError>)
        requires
            old(self).inv(),
        ensures
            final(self).inv(),
            r matches Ok(t) ==> contains_todo(old(self).store().todos, id as int) && final(self).store() == store_update(old(self).store(), id as int, payload@) && t@ == merged_todo(
                store_find(old(self).store(), id as int).unwrap(),
                payload@,
                old(self).store().catalog,
            ),
            r is Err ==> final(self).store() == old(self).store(),
            r matches Err(RepositoryError::NotFound(i)) ==> i == id && !contains_todo(
                old(self).store().todos,
                id as int,
            ),
    ;

    /// Removes the stored todo with the given id together with its label
    /// associations, or reports the id not found.
    fn delete(&mut self, id: i32) -> (r: Result<(), RepositoryError>)
        requires
            old(self).inv(),
        ensures
            final(self).inv(),
            r is Ok ==> contains_todo(old(self).store().todos, id as int) && final(self).store()
                == store_delete(old(self).store(), id as int),
            r is Err ==> final(self).store() == old(self).store(),
            r matches Err(RepositoryError::NotFound(i)) ==> i == id && !contains_todo(
                old(self).store().todos,
                id as int,
            ),
    ;
}

/// The capability contract for label storage, the simpler sibling of
/// `TodoRepository`.
pub trait LabelRepository: Sized {
    /// The abstract store this backend presents.
    spec fn store(&self) -> LabelStoreView;

    /// The backend's internal validity.
    spec fn inv(&self) -> bool;

    /// Stores a new label under the next id.
    fn create(&mut self, name: String) -> (r: Result<Label, RepositoryError>)
        requires
            old(self).inv(),
        ensures
            final(self).inv(),
            r matches Ok(l) ==> l@.id == old(self).store().next_id && l@.name == name@ && final(self).store() == (LabelStoreView {
                labels: old(self).store().labels.push(l@),
                next_id: old(self).store().next_id + 1,
            }),
            r is Err ==> final(self).store() == old(self).store(),
            !(r matches Err(RepositoryError::NotFound(_))),
    ;

    /// Returns every stored label, in the backend's deterministic order.
    fn all(&self) -> (r: Result<Vec<Label>, RepositoryError>)
        requires
            self.inv(),
        ensures
            r matches Ok(ls) ==> label_views(ls@) == self.store().labels,
    ;

    /// Removes the stored label with the given id, or reports it not found.
    fn delete(&mut self, id: i32) -> (r: Result<(), RepositoryError>)
        requires
            old(self).inv(),
        ensures
            final(self).inv(),
            r is Ok ==> exists|k: int|
                {
                    &&& 0 <= k < old(self).store().labels.len()
                    &&& old(self).store().labels[k].id == id
                    &&& final(self).store() == (LabelStoreView {
                        labels: old(self).store().labels.remove(k),
                        next_id: old(self).store().next_id,
                    })
                },
            r is Err ==> final(self).store() == old(self).store(),
            r matches Err(RepositoryError::NotFound(i)) ==> i == id && !crate::model::contains_label(
                old(self).store().labels,
                id as int,
            ),
    ;
}

} // verus!
