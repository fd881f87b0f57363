use todo_api::error::delete_outcome;
use todo_api::label::admit_new_name;
use todo_api::{
    CreateLabel, Label, LabelRepository, LabelRepositoryforMemory, RepositoryError, StoreFailure,
};

#[test]
fn label_crud_scenario() {
    let name = "label name".to_string();
    let id = 1;
    let expected = Label::new(id, name.clone());

    // create
    let mut repository = LabelRepositoryforMemory::new();
    let label = repository.create(name.clone()).expect("failed create label");
    assert_eq!(expected, label);

    // all
    let labels = repository.all();
    assert_eq!(vec![expected], labels);
}

#[test]
fn label_create_same_name_twice_is_duplicate() {
    let mut repository = LabelRepositoryforMemory::new();
    let first = repository.create("urgent".to_string()).unwrap();
    let second = repository.create("urgent".to_string());
    assert_eq!(second, Err(RepositoryError::Duplicate(first.id)));
    let labels = repository.all();
    assert_eq!(labels.iter().filter(|l| l.name == "urgent").count(), 1);
}

#[test]
fn label_all_is_ascending_by_id() {
    let mut repository = LabelRepositoryforMemory::new();
    for name in ["a", "b", "c", "d"] {
        repository.create(name.to_string()).unwrap();
    }
    repository.delete(2).unwrap();
    let labels = repository.all();
    let ids: Vec<i32> = labels.iter().map(|l| l.id).collect();
    assert_eq!(ids, vec![1, 3, 4]);
    assert_eq!(labels[1], Label::new(3, "c".to_string()));
}

#[test]
fn label_all_on_empty_store_is_empty() {
    let repository = LabelRepositoryforMemory::new();
    assert!(repository.all().is_empty());
}

#[test]
fn label_delete_absent_is_not_found() {
    let mut repository = LabelRepositoryforMemory::new();
    assert_eq!(repository.delete(7), Err(RepositoryError::NotFound(7)));
    let label = repository.create("x".to_string()).unwrap();
    assert_eq!(repository.delete(label.id), Ok(()));
    assert_eq!(repository.delete(label.id), Err(RepositoryError::NotFound(label.id)));
}

#[test]
fn label_ids_are_not_reused_after_delete() {
    let mut repository = LabelRepositoryforMemory::new();
    repository.create("a".to_string()).unwrap();
    let b = repository.create("b".to_string()).unwrap();
    repository.delete(1).unwrap();
    let c = repository.create("c".to_string()).unwrap();
    assert_eq!(b.id, 2);
    assert_eq!(c.id, 3);
    assert_eq!(repository.all().len(), 2);
}

#[test]
fn label_name_is_free_again_after_delete() {
    let mut repository = LabelRepositoryforMemory::new();
    let a = repository.create("a".to_string()).unwrap();
    repository.delete(a.id).unwrap();
    let again = repository.create("a".to_string()).unwrap();
    assert_eq!(again, Label::new(2, "a".to_string()));
}

#[test]
fn create_label_payload_keeps_name() {
    let payload = CreateLabel::new("home".to_string());
    assert_eq!(payload.name, "home");
}

#[test]
fn existing_name_is_rejected_with_its_id() {
    assert_eq!(
        admit_new_name(Some(Label::new(5, "dup".to_string()))),
        Err(RepositoryError::Duplicate(5))
    );
    assert_eq!(admit_new_name(None), Ok(()));
}

#[test]
fn delete_statement_failures_map_to_errors() {
    assert_eq!(delete_outcome(3, Ok(1)), Ok(()));
    assert_eq!(delete_outcome(3, Ok(0)), Err(RepositoryError::NotFound(3)));
    assert_eq!(
        delete_outcome(3, Err(StoreFailure::RowNotFound)),
        Err(RepositoryError::NotFound(3))
    );
    assert_eq!(
        delete_outcome(3, Err(StoreFailure::Other("connection reset".to_string()))),
        Err(RepositoryError::Unexpected("connection reset".to_string()))
    );
}
