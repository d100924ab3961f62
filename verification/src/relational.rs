//! The compute half of the relational todo backend. The relational backend
//! issues its SQL statements from unverified glue and hands every returned
//! value to these functions, which make the decisions: choosing the found
//! entity among the folded rows, and merging an update command over the
//! current entity.

use vstd::prelude::*;
use crate::RepositoryError;
use crate::domain::{TodoEntity, TodoWithLabelFromRow, UpdateTodo, row_views};
use crate::fold::{
    first_row_for, fold_entities, labels_for, lemma_first_seen_empty, lemma_first_seen_first,
};

verus! {

/// Folds the rows the join query returned for one todo id and picks the
/// entity: the rows were filtered to one id, so the first folded entity is
/// the result, and no rows at all means the id does not exist.
pub fn find_in_rows(rows: Vec<TodoWithLabelFromRow>, id: i32) -> (r: Result<
    TodoEntity,
    RepositoryError,
>)
    ensures
        r is Ok <==> rows@.len() > 0,
        r is Err ==> r == Err::<TodoEntity, RepositoryError>(RepositoryError::NotFound(id)),
        r matches Ok(t) ==> ({
            let rv = row_views(rows@);
            &&& t@.id == rv[0].id
            &&& t@.labels == labels_for(rv, t@.id)
            &&& t@.text == first_row_for(rv, t@.id).text
            &&& t@.completed == first_row_for(rv, t@.id).completed
        }),
{
    let ghost rv = row_views(rows@);
    let mut todos = fold_entities(rows);
    proof {
        lemma_first_seen_empty(rv);
    }
    if todos.len() == 0 {
        Err(RepositoryError::NotFound(id))
    } else {
        proof {
            lemma_first_seen_first(rv);
        }
        let t = todos.remove(0);
        Ok(t)
    }
}

/// The outcome of the relational delete: the backend detects a missing todo
/// by the delete statement touching no row, and that is reported as the
/// distinguished not-found outcome, never as a silent no-op.
pub fn delete_outcome(rows_affected: u64, id: i32) -> (r: Result<(), RepositoryError>)
    ensures
        r is Ok <==> rows_affected > 0,
        r is Err ==> r == Err::<(), RepositoryError>(RepositoryError::NotFound(id)),
{
    if rows_affected == 0 {
        Err(RepositoryError::NotFound(id))
    } else {
        Ok(())
    }
}

/// The row values the relational update statement writes: a field the
/// command supplies replaces the current value, an omitted field keeps the
/// current value.
pub fn merge_update(current: &TodoEntity, payload: &UpdateTodo) -> (r: (String, bool))
    ensures
        r.0@ == (match payload@.text {
            Some(t) => t,
            None => current@.text,
        }),
        r.1 == (match payload@.completed {
            Some(b) => b,
            None => current@.completed,
        }),
{
    let text = match &payload.text {
        Some(t) => t.clone(),
        None => current.text.clone(),
    };
    let completed = match payload.completed {
        Some(b) => b,
        None => current.completed,
    };
    (text, completed)
}

} // verus!
