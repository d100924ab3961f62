//! Tests of the in-memory label backend through its repository contract.

use todo_repo::RepositoryError;
use todo_repo::domain::Label;
use todo_repo::memory::LabelRepositoryForMemory;
use todo_repo::repository::LabelRepository;

#[test]
fn label_crud_scenario() {
    let mut repo = LabelRepositoryForMemory::new();

    let created = repo
        .create("errand".to_string())
        .expect("create failed");
    assert_eq!(
        created,
        Label {
            id: 1,
            name: "errand".to_string()
        }
    );

    let second = repo.create("home".to_string()).expect("create failed");
    assert_eq!(second.id, 2);

    let all = repo.all().expect("all failed");
    assert_eq!(all, vec![created.clone(), second.clone()]);

    repo.delete(1).expect("delete failed");
    let all = repo.all().expect("all failed");
    assert_eq!(all, vec![second]);
}

#[test]
fn label_all_on_empty_store_returns_empty() {
    let repo = LabelRepositoryForMemory::new();
    assert_eq!(repo.all().unwrap(), Vec::<Label>::new());
}

#[test]
fn label_delete_of_missing_id_reports_not_found() {
    let mut repo = LabelRepositoryForMemory::new();
    assert_eq!(repo.delete(5), Err(RepositoryError::NotFound(5)));
    repo.create("once".to_string()).expect("create failed");
    repo.delete(1).expect("delete failed");
    assert_eq!(repo.delete(1), Err(RepositoryError::NotFound(1)));
}
