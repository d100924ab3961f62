//! Tests of the compute half of the relational backend: entity selection
//! from folded rows and the update merge.

use todo_repo::RepositoryError;
use todo_repo::domain::{Label, TodoEntity, TodoWithLabelFromRow, UpdateTodo};
use todo_repo::relational::{delete_outcome, find_in_rows, merge_update};

#[test]
fn find_in_rows_reports_not_found_for_no_rows() {
    assert_eq!(
        find_in_rows(Vec::new(), 9),
        Err(RepositoryError::NotFound(9))
    );
}

#[test]
fn find_in_rows_folds_the_rows_of_one_todo() {
    let rows = vec![
        TodoWithLabelFromRow {
            id: 4,
            text: "shop".to_string(),
            completed: false,
            label_id: Some(7),
            label_name: Some("errand".to_string()),
        },
        TodoWithLabelFromRow {
            id: 4,
            text: "shop".to_string(),
            completed: false,
            label_id: Some(8),
            label_name: Some("urgent".to_string()),
        },
    ];
    let found = find_in_rows(rows, 4).expect("should fold to one entity");
    assert_eq!(
        found,
        TodoEntity {
            id: 4,
            text: "shop".to_string(),
            completed: false,
            labels: vec![
                Label {
                    id: 7,
                    name: "errand".to_string()
                },
                Label {
                    id: 8,
                    name: "urgent".to_string()
                },
            ],
        }
    );
}

#[test]
fn delete_outcome_goes_by_affected_rows() {
    assert_eq!(delete_outcome(0, 5), Err(RepositoryError::NotFound(5)));
    assert_eq!(delete_outcome(1, 5), Ok(()));
}

#[test]
fn merge_update_keeps_omitted_fields() {
    let current = TodoEntity {
        id: 1,
        text: "keep me".to_string(),
        completed: false,
        labels: vec![],
    };
    let (text, completed) = merge_update(
        &current,
        &UpdateTodo {
            text: None,
            completed: Some(true),
            labels: None,
        },
    );
    assert_eq!(text, "keep me");
    assert!(completed);
}

#[test]
fn merge_update_takes_supplied_fields() {
    let current = TodoEntity {
        id: 1,
        text: "old".to_string(),
        completed: true,
        labels: vec![],
    };
    let (text, completed) = merge_update(
        &current,
        &UpdateTodo {
            text: Some("new".to_string()),
            completed: None,
            labels: Some(vec![3]),
        },
    );
    assert_eq!(text, "new");
    assert!(completed);
}
