use graphql_users::store::{User, UserStore};

fn user(id: &str, name: &str, email: &str) -> User {
    User { id: id.to_owned(), name: name.to_owned(), email: email.to_owned() }
}

#[test]
fn empty_store_lists_nothing() {
    let store = UserStore::new();
    assert!(store.list().is_empty());
    assert!(store.find(&"1".to_string()).is_none());
}

#[test]
fn list_after_insert_contains_record() {
    let mut store = UserStore::new();
    store.insert(user("7", "Ada", "ada@x.com"));
    let all = store.list();
    assert!(all.iter().any(|u| u.id == "7" && u.name == "Ada" && u.email == "ada@x.com"));
}

#[test]
fn insert_returns_inserted_record() {
    let mut store = UserStore::new();
    let r = store.insert(user("7", "Ada", "ada@x.com"));
    assert_eq!(r.id, "7");
    assert_eq!(r.name, "Ada");
    assert_eq!(r.email, "ada@x.com");
}

#[test]
fn find_after_delete_returns_none() {
    let mut store = UserStore::with_initial_users();
    assert!(store.delete(&"1".to_string()).is_some());
    assert!(store.find(&"1".to_string()).is_none());
}

#[test]
fn update_name_leaves_email_unchanged() {
    let mut store = UserStore::with_initial_users();
    let updated = store.update(&"1".to_string(), Some("Johnny".to_string()), None).unwrap();
    assert_eq!(updated.id, "1");
    assert_eq!(updated.name, "Johnny");
    assert_eq!(updated.email, "john.doe@example.com");
    let found = store.find(&"1".to_string()).unwrap();
    assert_eq!(found.name, "Johnny");
    assert_eq!(found.email, "john.doe@example.com");
}

#[test]
fn update_email_leaves_name_unchanged() {
    let mut store = UserStore::with_initial_users();
    let updated = store.update(&"2".to_string(), None, Some("jane@y.com".to_string())).unwrap();
    assert_eq!(updated.name, "Jane Doe");
    assert_eq!(updated.email, "jane@y.com");
}

#[test]
fn missing_id_returns_none_without_mutation() {
    let mut store = UserStore::with_initial_users();
    let before: Vec<(String, String, String)> =
        store.list().into_iter().map(|u| (u.id, u.name, u.email)).collect();
    assert!(store.find(&"99".to_string()).is_none());
    assert!(store.update(&"99".to_string(), Some("X".to_string()), None).is_none());
    assert!(store.delete(&"99".to_string()).is_none());
    let after: Vec<(String, String, String)> =
        store.list().into_iter().map(|u| (u.id, u.name, u.email)).collect();
    assert_eq!(before, after);
}

#[test]
fn create_then_find_round_trips() {
    let mut store = UserStore::with_initial_users();
    store.insert(user("3", "Alice", "a@x.com"));
    let found = store.find(&"3".to_string()).unwrap();
    assert_eq!(found.id, "3");
    assert_eq!(found.name, "Alice");
    assert_eq!(found.email, "a@x.com");
}

#[test]
fn initial_store_lists_both_seeded_users_in_order() {
    let store = UserStore::with_initial_users();
    let all = store.list();
    assert_eq!(all.len(), 2);
    assert_eq!(all[0].id, "1");
    assert_eq!(all[0].name, "John Doe");
    assert_eq!(all[0].email, "john.doe@example.com");
    assert_eq!(all[1].id, "2");
    assert_eq!(all[1].name, "Jane Doe");
    assert_eq!(all[1].email, "jane.doe@example.com");
}

#[test]
fn create_user_grows_listing_to_three() {
    let mut store = UserStore::with_initial_users();
    let created = store.insert(user("3", "Alice", "a@x.com"));
    assert_eq!(created.id, "3");
    assert_eq!(created.name, "Alice");
    assert_eq!(created.email, "a@x.com");
    let all = store.list();
    assert_eq!(all.len(), 3);
    assert_eq!(all[2].id, "3");
}

#[test]
fn delete_returns_removed_record() {
    let mut store = UserStore::with_initial_users();
    let removed = store.delete(&"2".to_string()).unwrap();
    assert_eq!(removed.id, "2");
    assert_eq!(removed.name, "Jane Doe");
    assert_eq!(removed.email, "jane.doe@example.com");
    assert!(store.find(&"2".to_string()).is_none());
    assert_eq!(store.list().len(), 1);
}

#[test]
fn delete_missing_id_leaves_store_unchanged() {
    let mut store = UserStore::with_initial_users();
    assert!(store.delete(&"99".to_string()).is_none());
    let all = store.list();
    assert_eq!(all.len(), 2);
    assert_eq!(all[0].id, "1");
    assert_eq!(all[1].id, "2");
}

#[test]
fn duplicate_ids_are_permitted_and_first_match_wins() {
    let mut store = UserStore::new();
    store.insert(user("5", "First", "first@x.com"));
    store.insert(user("5", "Second", "second@x.com"));
    assert_eq!(store.list().len(), 2);

    let found = store.find(&"5".to_string()).unwrap();
    assert_eq!(found.name, "First");

    let updated = store.update(&"5".to_string(), Some("Renamed".to_string()), None).unwrap();
    assert_eq!(updated.name, "Renamed");
    let all = store.list();
    assert_eq!(all[0].name, "Renamed");
    assert_eq!(all[1].name, "Second");

    let removed = store.delete(&"5".to_string()).unwrap();
    assert_eq!(removed.name, "Renamed");
    let rest = store.find(&"5".to_string()).unwrap();
    assert_eq!(rest.name, "Second");
}
