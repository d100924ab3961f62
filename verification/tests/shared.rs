//! Tests of the shared in-memory backend: every operation goes through the
//! reader/writer lock behind a shared reference.

use todo_repo::RepositoryError;
use todo_repo::domain::{CreateTodo, Label, UpdateTodo};
use todo_repo::shared::SharedTodoRepository;

#[test]
fn shared_store_crud_scenario() {
    let repo = SharedTodoRepository::new(vec![Label {
        id: 7,
        name: "errand".to_string(),
    }]);

    let created = repo
        .create(CreateTodo::new("buy milk".to_string(), vec![7]))
        .expect("create failed");
    assert_eq!(created.text, "buy milk");
    assert!(!created.completed);
    assert_eq!(created.labels.len(), 1);
    assert_eq!(created.labels[0].name, "errand");

    let found = repo.find(created.id).expect("find failed");
    assert_eq!(found, created);

    let all = repo.all().expect("all failed");
    assert_eq!(all, vec![created.clone()]);

    let updated = repo
        .update(
            created.id,
            UpdateTodo {
                text: None,
                completed: Some(true),
                labels: None,
            },
        )
        .expect("update failed");
    assert!(updated.completed);
    assert_eq!(updated.text, "buy milk");

    repo.delete(created.id).expect("delete failed");
    assert_eq!(
        repo.find(created.id),
        Err(RepositoryError::NotFound(created.id))
    );
}

#[test]
fn shared_store_reports_not_found() {
    let repo = SharedTodoRepository::new(vec![]);
    assert_eq!(repo.find(3), Err(RepositoryError::NotFound(3)));
    assert_eq!(repo.delete(3), Err(RepositoryError::NotFound(3)));
}
