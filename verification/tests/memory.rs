//! Tests of the in-memory todo backend through the repository contract.

use todo_repo::RepositoryError;
use todo_repo::domain::{CreateTodo, Label, TodoEntity, UpdateTodo};
use todo_repo::memory::TodoRepositoryForMemory;
use todo_repo::repository::TodoRepository;

fn label(id: i32, name: &str) -> Label {
    Label {
        id,
        name: name.to_string(),
    }
}

#[test]
fn todo_crud_scenario() {
    let text = "todo text".to_string();
    let id: i32 = 1;
    let expected = TodoEntity {
        id,
        text: text.clone(),
        completed: false,
        labels: vec![],
    };

    // create
    let mut repository = TodoRepositoryForMemory::new(vec![]);
    let todo = repository
        .create(CreateTodo::new(text, vec![]))
        .expect("failed create todo");
    assert_eq!(expected, todo);

    // find
    let todo = repository.find(todo.id).unwrap();
    assert_eq!(expected, todo);

    // all
    let todo = repository.all().expect("failed get all todo");
    assert_eq!(vec![expected], todo);

    // update
    let text = "update todo text".to_string();
    let todo = repository
        .update(
            1,
            UpdateTodo {
                text: Some(text.clone()),
                completed: Some(true),
                labels: Some(vec![]),
            },
        )
        .expect("failed update todo");
    assert_eq!(
        TodoEntity {
            id,
            text,
            completed: true,
            labels: vec![],
        },
        todo,
    );

    // delete
    let res = repository.delete(id);
    assert!(res.is_ok());
}

#[test]
fn crud_scenario_with_label() {
    // A store that knows label 7, named "errand".
    let mut repo = TodoRepositoryForMemory::new(vec![label(7, "errand")]);

    let created = repo
        .create(CreateTodo::new("buy milk".to_string(), vec![7]))
        .expect("create failed");
    assert_eq!(
        created,
        TodoEntity {
            id: 1,
            text: "buy milk".to_string(),
            completed: false,
            labels: vec![label(7, "errand")],
        }
    );

    let updated = repo
        .update(
            1,
            UpdateTodo {
                text: None,
                completed: Some(true),
                labels: None,
            },
        )
        .expect("update failed");
    assert_eq!(
        updated,
        TodoEntity {
            id: 1,
            text: "buy milk".to_string(),
            completed: true,
            labels: vec![label(7, "errand")],
        }
    );

    repo.delete(1).expect("delete failed");
    assert_eq!(repo.find(1), Err(RepositoryError::NotFound(1)));
}

#[test]
fn all_on_empty_store_returns_empty() {
    let repo = TodoRepositoryForMemory::new(vec![]);
    let todos = repo.all().expect("all failed");
    assert_eq!(todos, Vec::<TodoEntity>::new());
}

#[test]
fn create_then_find_round_trip() {
    let mut repo = TodoRepositoryForMemory::new(vec![label(3, "home"), label(4, "work")]);
    let created = repo
        .create(CreateTodo::new("write report".to_string(), vec![4, 3]))
        .expect("create failed");
    let found = repo.find(created.id).expect("find failed");
    assert_eq!(created, found);
    // Labels come back in request order.
    assert_eq!(found.labels, vec![label(4, "work"), label(3, "home")]);
}

#[test]
fn update_changes_only_supplied_fields() {
    let mut repo = TodoRepositoryForMemory::new(vec![label(2, "kept")]);
    let created = repo
        .create(CreateTodo::new("original".to_string(), vec![2]))
        .expect("create failed");

    let updated = repo
        .update(
            created.id,
            UpdateTodo {
                text: None,
                completed: Some(true),
                labels: None,
            },
        )
        .expect("update failed");
    assert_eq!(updated.text, "original");
    assert_eq!(updated.labels, vec![label(2, "kept")]);
    assert!(updated.completed);

    // Supplying an empty label set clears the labels.
    let cleared = repo
        .update(
            created.id,
            UpdateTodo {
                text: None,
                completed: None,
                labels: Some(vec![]),
            },
        )
        .expect("update failed");
    assert_eq!(cleared.labels, Vec::<Label>::new());
    assert_eq!(cleared.text, "original");
    assert!(cleared.completed);
}

#[test]
fn delete_cascades() {
    let mut repo = TodoRepositoryForMemory::new(vec![label(1, "a")]);
    let created = repo
        .create(CreateTodo::new("to be removed".to_string(), vec![1]))
        .expect("create failed");
    let keeper = repo
        .create(CreateTodo::new("stays".to_string(), vec![]))
        .expect("create failed");

    repo.delete(created.id).expect("delete failed");
    assert_eq!(
        repo.find(created.id),
        Err(RepositoryError::NotFound(created.id))
    );
    // The other todo is untouched and no trace of the deleted one remains.
    let remaining = repo.all().expect("all failed");
    assert_eq!(remaining, vec![keeper]);
}

#[test]
fn not_found_propagation() {
    let mut repo = TodoRepositoryForMemory::new(vec![]);

    assert_eq!(repo.find(42), Err(RepositoryError::NotFound(42)));
    assert_eq!(
        repo.update(
            42,
            UpdateTodo {
                text: None,
                completed: Some(true),
                labels: None,
            }
        ),
        Err(RepositoryError::NotFound(42))
    );
    assert_eq!(repo.delete(42), Err(RepositoryError::NotFound(42)));

    // An id that existed once and was deleted reports not found, and is
    // never reused by a later create.
    let created = repo
        .create(CreateTodo::new("ephemeral".to_string(), vec![]))
        .expect("create failed");
    repo.delete(created.id).expect("delete failed");
    assert_eq!(
        repo.find(created.id),
        Err(RepositoryError::NotFound(created.id))
    );
    let next = repo
        .create(CreateTodo::new("later".to_string(), vec![]))
        .expect("create failed");
    assert_ne!(next.id, created.id);
}

#[test]
fn create_with_unknown_label_fails_without_a_partial_write() {
    let mut repo = TodoRepositoryForMemory::new(vec![label(1, "known")]);
    let res = repo.create(CreateTodo::new("bad".to_string(), vec![1, 99]));
    assert!(matches!(res, Err(RepositoryError::Unexpected(_))));
    // Nothing became visible.
    assert_eq!(repo.all().unwrap(), Vec::<TodoEntity>::new());
}

#[test]
fn update_with_unknown_label_leaves_the_todo_unchanged() {
    let mut repo = TodoRepositoryForMemory::new(vec![label(1, "known")]);
    let created = repo
        .create(CreateTodo::new("original".to_string(), vec![1]))
        .expect("create failed");
    let res = repo.update(
        created.id,
        UpdateTodo {
            text: Some("changed".to_string()),
            completed: Some(true),
            labels: Some(vec![99]),
        },
    );
    assert!(matches!(res, Err(RepositoryError::Unexpected(_))));
    assert_eq!(repo.find(created.id).unwrap(), created);
}

#[test]
fn validation_rejects_out_of_bounds_text() {
    let empty = CreateTodo::new(String::new(), vec![]);
    assert_eq!(
        empty.validate(),
        Err(RepositoryError::Validation("Can not be empty".to_string()))
    );

    let too_long = CreateTodo::new("x".repeat(101), vec![]);
    assert_eq!(
        too_long.validate(),
        Err(RepositoryError::Validation("Over text length".to_string()))
    );

    let at_bound = CreateTodo::new("x".repeat(100), vec![]);
    assert!(at_bound.validate().is_ok());

    let update_empty = UpdateTodo {
        text: Some(String::new()),
        completed: None,
        labels: None,
    };
    assert!(matches!(
        update_empty.validate(),
        Err(RepositoryError::Validation(_))
    ));

    let update_absent = UpdateTodo {
        text: None,
        completed: None,
        labels: None,
    };
    assert!(update_absent.validate().is_ok());
}
