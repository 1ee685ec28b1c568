use data_harvester::error::HarvestError;
use data_harvester::users::UserTable;
use std::cell::Cell;

#[test]
fn a_failed_lookup_reads_as_not_available() {
    let mut table = UserTable::new();
    let user = table.resolve(Some(4242), &|_uid: u32| -> Option<String> { None });
    assert_eq!(user, "N/A");
    assert!(table.uid_user_mapping.is_empty());
}

#[test]
fn a_process_without_owner_reads_as_not_available() {
    let mut table = UserTable::new();
    let calls = Cell::new(0);
    let user = table.resolve(None, &|_uid: u32| -> Option<String> {
        calls.set(calls.get() + 1);
        Some("root".to_string())
    });
    assert_eq!(user, "N/A");
    assert_eq!(calls.get(), 0);
    assert!(table.uid_user_mapping.is_empty());
}

#[test]
fn a_name_is_looked_up_once() {
    let mut table = UserTable::new();
    let calls = Cell::new(0);
    let lookup = |uid: u32| -> Option<String> {
        calls.set(calls.get() + 1);
        Some(format!("user{}", uid))
    };
    assert_eq!(table.resolve(Some(7), &lookup), "user7");
    assert_eq!(table.resolve(Some(7), &lookup), "user7");
    assert_eq!(calls.get(), 1);
    assert_eq!(table.cached(7), Some("user7".to_string()));
    assert_eq!(table.cached(8), None);
}

#[test]
fn a_failure_is_not_remembered() {
    let mut table = UserTable::new();
    let calls = Cell::new(0);
    let failing = |_uid: u32| -> Option<String> {
        calls.set(calls.get() + 1);
        None
    };
    assert_eq!(table.resolve(Some(9), &failing), "N/A");
    assert_eq!(table.resolve(Some(9), &failing), "N/A");
    assert_eq!(calls.get(), 2);
    assert_eq!(table.resolve(Some(9), &|_uid: u32| Some("nine".to_string())), "nine");
    assert_eq!(table.resolve(Some(9), &failing), "nine");
    assert_eq!(calls.get(), 2);
}

#[test]
fn the_mapping_reports_a_missing_entry() {
    let mut table = UserTable::new();
    let result = table.get_uid_to_username_mapping(5, &|_uid: u32| -> Option<String> { None });
    assert!(matches!(result, Err(HarvestError::QueryError(ref m)) if m == "Missing passwd"));
    let result = table.get_uid_to_username_mapping(5, &|_uid: u32| Some("five".to_string()));
    assert!(matches!(result, Ok(ref name) if name == "five"));
    let result = table.get_uid_to_username_mapping(5, &|_uid: u32| -> Option<String> { None });
    assert!(matches!(result, Ok(ref name) if name == "five"));
}

#[test]
fn recording_a_lookup() {
    let mut table = UserTable::new();
    assert!(matches!(table.record_lookup(1, None), Err(HarvestError::QueryError(_))));
    assert_eq!(table.cached(1), None);
    assert!(matches!(table.record_lookup(1, Some("one".to_string())), Ok(ref n) if n == "one"));
    assert_eq!(table.cached(1), Some("one".to_string()));
}
