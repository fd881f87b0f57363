use todo_api::error::error_for_row;
use todo_api::todo::{apply_update, fold_entities, fold_entity};
use todo_api::validate::check_text;
use todo_api::{
    CreateTodo, Label, LengthViolation, RepositoryError, StoreFailure, TodoEntity, TodoRepository,
    TodoRepositoryForMemory, TodoWithLabelFromRow, UpdateTodo,
};

#[test]
fn todo_crud_scenario() {
    let text = "todo text".to_string();
    let id = 1;
    let expected = TodoEntity::new(id, text.clone());

    // create
    let mut repository = TodoRepositoryForMemory::new();
    let todo = repository.create(CreateTodo { text }).expect("failed create todo");
    assert_eq!(expected, todo);

    // find
    let todo = repository.find(todo.id).unwrap();
    assert_eq!(expected, todo);

    // all
    let todo = repository.all();
    assert_eq!(vec![expected], todo);

    // update
    let text = "update todo text".to_string();
    let todo = repository
        .update(
            1,
            UpdateTodo { text: Some(text.clone()), completed: Some(true), labels: Some(vec![]) },
        )
        .expect("failed to update todo.");
    assert_eq!(TodoEntity { id, text, completed: true, labels: vec![] }, todo);

    // delete
    let res = repository.delete(id);
    assert!(res.is_ok())
}

#[test]
fn create_then_find_returns_created_todo() {
    let mut repository = TodoRepositoryForMemory::new();
    let created = repository.create(CreateTodo::new("should_find_todo".to_string())).unwrap();
    assert_eq!(created.id, 1);
    assert!(!created.completed);
    assert!(created.labels.is_empty());
    assert_eq!(created.text, "should_find_todo");
    assert_eq!(repository.find(1), Ok(created));
}

#[test]
fn absent_ids_are_not_found_in_fresh_store() {
    let mut repository = TodoRepositoryForMemory::new();
    for id in [-1, 0, 1, 42, i32::MAX] {
        assert_eq!(repository.find(id), Err(RepositoryError::NotFound(id)));
        let patch = UpdateTodo { text: Some("t".to_string()), completed: None, labels: None };
        assert_eq!(repository.update(id, patch), Err(RepositoryError::NotFound(id)));
        assert_eq!(repository.delete(id), Err(RepositoryError::NotFound(id)));
    }
    assert!(repository.all().is_empty());
}

#[test]
fn all_after_creates_lists_each_once_newest_first() {
    let mut repository = TodoRepositoryForMemory::new();
    let texts = ["one", "two", "three"];
    for t in texts {
        repository.create(CreateTodo::new(t.to_string())).unwrap();
    }
    let all = repository.all();
    assert_eq!(
        all,
        vec![
            TodoEntity::new(3, "three".to_string()),
            TodoEntity::new(2, "two".to_string()),
            TodoEntity::new(1, "one".to_string()),
        ]
    );
}

#[test]
fn text_only_update_keeps_completed_and_labels() {
    let mut repository = TodoRepositoryForMemory::new();
    repository.create(CreateTodo::new("orig".to_string())).unwrap();
    let labels = vec![Label::new(999, "test label".to_string())];
    repository
        .update(1, UpdateTodo { text: None, completed: Some(true), labels: Some(labels.clone()) })
        .unwrap();
    let updated = repository
        .update(1, UpdateTodo { text: Some("renamed".to_string()), completed: None, labels: None })
        .unwrap();
    assert_eq!(updated, TodoEntity { id: 1, text: "renamed".to_string(), completed: true, labels });
    assert_eq!(repository.find(1), Ok(updated));
}

#[test]
fn delete_then_find_and_second_delete_fail() {
    let mut repository = TodoRepositoryForMemory::new();
    let created = repository.create(CreateTodo::new("gone".to_string())).unwrap();
    assert_eq!(repository.delete(created.id), Ok(()));
    assert_eq!(repository.find(created.id), Err(RepositoryError::NotFound(created.id)));
    assert_eq!(repository.delete(created.id), Err(RepositoryError::NotFound(created.id)));
}

#[test]
fn update_text_and_completed_scenario() {
    let mut repository = TodoRepositoryForMemory::new();
    let created = repository.create(CreateTodo::new("orig".to_string())).unwrap();
    let updated = repository
        .update(
            1,
            UpdateTodo { text: Some("updated".to_string()), completed: Some(true), labels: None },
        )
        .unwrap();
    assert_eq!(
        updated,
        TodoEntity { id: 1, text: "updated".to_string(), completed: true, labels: created.labels }
    );
}

#[test]
fn todo_ids_are_not_reused_after_delete() {
    let mut repository = TodoRepositoryForMemory::new();
    repository.create(CreateTodo::new("a".to_string())).unwrap();
    repository.create(CreateTodo::new("b".to_string())).unwrap();
    repository.delete(1).unwrap();
    let c = repository.create(CreateTodo::new("c".to_string())).unwrap();
    assert_eq!(c.id, 3);
    let ids: Vec<i32> = repository.all().iter().map(|t| t.id).collect();
    assert_eq!(ids, vec![3, 2]);
}

#[test]
fn rows_fold_into_entities_without_labels() {
    let rows = vec![
        TodoWithLabelFromRow { text: "a".to_string(), id: 7, completed: true },
        TodoWithLabelFromRow { text: "b".to_string(), id: 3, completed: false },
    ];
    let entities = fold_entities(rows);
    assert_eq!(
        entities,
        vec![
            TodoEntity { text: "a".to_string(), id: 7, completed: true, labels: vec![] },
            TodoEntity { text: "b".to_string(), id: 3, completed: false, labels: vec![] },
        ]
    );
    assert!(fold_entities(vec![]).is_empty());
}

#[test]
fn single_row_folds_into_entity() {
    let row = TodoWithLabelFromRow { text: "row".to_string(), id: 12, completed: true };
    let entity = fold_entity(row);
    assert_eq!(entity, TodoEntity { text: "row".to_string(), id: 12, completed: true, labels: vec![] });
}

#[test]
fn merge_keeps_absent_fields() {
    let current = TodoEntity {
        text: "keep".to_string(),
        id: 4,
        completed: true,
        labels: vec![Label::new(1, "l".to_string())],
    };
    let none = UpdateTodo { text: None, completed: None, labels: None };
    assert_eq!(apply_update(current.clone(), none), current);
    let all = UpdateTodo {
        text: Some("new".to_string()),
        completed: Some(false),
        labels: Some(vec![]),
    };
    assert_eq!(
        apply_update(current, all),
        TodoEntity { text: "new".to_string(), id: 4, completed: false, labels: vec![] }
    );
}

#[test]
fn text_length_is_checked_in_characters() {
    assert_eq!(check_text(&String::new()), Err(LengthViolation::Empty));
    assert_eq!(check_text(&"a".to_string()), Ok(()));
    assert_eq!(check_text(&"a".repeat(100)), Ok(()));
    assert_eq!(check_text(&"a".repeat(101)), Err(LengthViolation::TooLong));
    // 100 two-byte characters are 200 bytes but within the limit.
    assert_eq!(check_text(&"é".repeat(100)), Ok(()));
    assert_eq!(check_text(&"é".repeat(101)), Err(LengthViolation::TooLong));
}

#[test]
fn row_failures_map_to_repository_errors() {
    assert_eq!(error_for_row(9, StoreFailure::RowNotFound), RepositoryError::NotFound(9));
    assert_eq!(
        error_for_row(9, StoreFailure::Other("boom".to_string())),
        RepositoryError::Unexpected("boom".to_string())
    );
}

#[test]
fn payloads_validate_text_length() {
    assert_eq!(CreateTodo::new(String::new()).validate(), Err(LengthViolation::Empty));
    assert_eq!(CreateTodo::new("ok".to_string()).validate(), Ok(()));
    let none = UpdateTodo { text: None, completed: Some(true), labels: None };
    assert_eq!(none.validate(), Ok(()));
    let long = UpdateTodo { text: Some("x".repeat(101)), completed: None, labels: None };
    assert_eq!(long.validate(), Err(LengthViolation::TooLong));
}
