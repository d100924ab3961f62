//! Tests of the entity folding algorithm.

use todo_repo::domain::{Label, TodoEntity, TodoWithLabelFromRow};
use todo_repo::fold::fold_entities;

fn row(id: i32, text: &str, completed: bool, label: Option<(i32, &str)>) -> TodoWithLabelFromRow {
    TodoWithLabelFromRow {
        id,
        text: text.to_string(),
        completed,
        label_id: label.map(|l| l.0),
        label_name: label.map(|l| l.1.to_string()),
    }
}

#[test]
fn fold_entities_test() {
    let label_1 = Label {
        id: 1,
        name: String::from("label 1"),
    };
    let label_2 = Label {
        id: 2,
        name: String::from("label 2"),
    };
    let rows = vec![
        TodoWithLabelFromRow {
            id: 1,
            text: String::from("todo 1"),
            completed: false,
            label_id: Some(label_1.id),
            label_name: Some(label_1.name.clone()),
        },
        TodoWithLabelFromRow {
            id: 1,
            text: String::from("todo 1"),
            completed: false,
            label_id: Some(label_2.id),
            label_name: Some(label_2.name.clone()),
        },
        TodoWithLabelFromRow {
            id: 2,
            text: String::from("todo 2"),
            completed: false,
            label_id: Some(label_1.id),
            label_name: Some(label_1.name.clone()),
        },
    ];
    let res = fold_entities(rows);
    assert_eq!(
        res,
        vec![
            TodoEntity {
                id: 1,
                text: String::from("todo 1"),
                completed: false,
                labels: vec![label_1.clone(), label_2.clone()],
            },
            TodoEntity {
                id: 2,
                text: String::from("todo 2"),
                completed: false,
                labels: vec![label_1.clone()],
            }
        ]
    );
}

#[test]
fn fold_empty_rows_yields_no_entities() {
    let res = fold_entities(Vec::new());
    assert_eq!(res, Vec::<TodoEntity>::new());
}

#[test]
fn fold_todo_without_labels_has_empty_label_list() {
    let rows = vec![row(5, "bare", true, None)];
    let res = fold_entities(rows);
    assert_eq!(
        res,
        vec![TodoEntity {
            id: 5,
            text: String::from("bare"),
            completed: true,
            labels: vec![],
        }]
    );
}

#[test]
fn fold_groups_non_adjacent_rows_by_id() {
    // The rows of todo 1 are separated by a row of todo 2: the lookup must
    // go by id, not by the last accumulated entity.
    let rows = vec![
        row(1, "first", false, Some((10, "a"))),
        row(2, "second", false, None),
        row(1, "first", false, Some((11, "b"))),
    ];
    let res = fold_entities(rows);
    assert_eq!(res.len(), 2);
    assert_eq!(res[0].id, 1);
    assert_eq!(
        res[0].labels,
        vec![
            Label {
                id: 10,
                name: String::from("a")
            },
            Label {
                id: 11,
                name: String::from("b")
            },
        ]
    );
    assert_eq!(res[1].id, 2);
    assert_eq!(res[1].labels, vec![]);
}

#[test]
fn fold_keeps_first_seen_order_and_first_row_fields() {
    let rows = vec![
        row(7, "seven", true, None),
        row(3, "three", false, Some((1, "x"))),
        row(9, "nine", false, None),
    ];
    let res = fold_entities(rows);
    let ids: Vec<i32> = res.iter().map(|t| t.id).collect();
    assert_eq!(ids, vec![7, 3, 9]);
    assert_eq!(res[0].text, "seven");
    assert!(res[0].completed);
    assert_eq!(res[1].text, "three");
    assert!(!res[1].completed);
}

#[test]
fn fold_does_not_double_count_a_single_pair() {
    // The association (1, label 10) appears exactly once; it must appear
    // exactly once in the folded entity.
    let rows = vec![
        row(1, "t", false, Some((10, "only"))),
        row(1, "t", false, Some((11, "other"))),
    ];
    let res = fold_entities(rows);
    assert_eq!(res.len(), 1);
    assert_eq!(
        res[0].labels,
        vec![
            Label {
                id: 10,
                name: String::from("only")
            },
            Label {
                id: 11,
                name: String::from("other")
            },
        ]
    );
}
