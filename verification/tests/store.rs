use std::path::PathBuf;

use notebot::store::{NotebotError, Store, StoreRead};

fn fresh_store() -> Store {
    Store::open(PathBuf::from("state/store.json"), StoreRead::Missing).unwrap()
}

#[test]
fn roundtrips_values() {
    let mut store = fresh_store();
    store.set("count", serde_json::to_value(42u32).unwrap());
    store.set("name", serde_json::to_value("alice").unwrap());
    let count: Option<u32> = store
        .get("count")
        .map(|v| serde_json::from_value(v).unwrap());
    let name: Option<String> = store
        .get("name")
        .map(|v| serde_json::from_value(v).unwrap());
    assert_eq!(count, Some(42));
    assert_eq!(name, Some("alice".into()));
    assert_eq!(store.get("missing"), None);
}

#[test]
fn persists_across_reopen() {
    let path = PathBuf::from("state/store.json");
    let mut store = Store::open(path.clone(), StoreRead::Missing).unwrap();
    store.set("k", serde_json::to_value("v").unwrap());
    let body = String::from_utf8(store.document().unwrap()).unwrap();
    let reopened = Store::open(path.clone(), StoreRead::Contents(body)).unwrap();
    let k: Option<String> = reopened
        .get("k")
        .map(|v| serde_json::from_value(v).unwrap());
    assert_eq!(k, Some("v".into()));
    assert_eq!(reopened.path(), &path);
}

#[test]
fn deletes_keys() {
    let mut store = fresh_store();
    store.set("k", serde_json::to_value(1).unwrap());
    assert!(store.delete("k"));
    assert_eq!(store.get("k"), None);
    assert!(!store.delete("k")); // nothing left to delete: the file stays as it is
}

#[test]
fn corrupt_file_is_an_error() {
    let read = StoreRead::Contents("not json".to_string());
    assert!(matches!(
        Store::open(PathBuf::from("store.json"), read),
        Err(NotebotError::Store(_))
    ));
}

#[test]
fn unreadable_file_is_an_error() {
    let read = StoreRead::Failed("permission denied".to_string());
    match Store::open(PathBuf::from("store.json"), read) {
        Err(NotebotError::Store(message)) => {
            assert_eq!(message, "failed to read store.json: permission denied")
        }
        Ok(_) => panic!("opened an unreadable store"),
    }
}

#[test]
fn corrupt_file_message_names_the_file() {
    let read = StoreRead::Contents("[1, 2]".to_string());
    match Store::open(PathBuf::from("store.json"), read) {
        Err(NotebotError::Store(message)) => {
            assert!(message.starts_with("corrupt store file store.json: "))
        }
        Ok(_) => panic!("an array opened as a store"),
    }
}

#[test]
fn missing_file_is_an_empty_store() {
    let store = fresh_store();
    assert_eq!(store.get("anything"), None);
    assert_eq!(String::from_utf8(store.document().unwrap()).unwrap(), "{}");
}

#[test]
fn set_replaces_the_old_value_and_keeps_others() {
    let mut store = fresh_store();
    store.set("a", serde_json::Value::from(1));
    store.set("b", serde_json::Value::from(2));
    store.set("a", serde_json::Value::from("x"));
    assert_eq!(store.get("a"), Some(serde_json::Value::from("x")));
    assert_eq!(store.get("b"), Some(serde_json::Value::from(2)));
}

#[test]
fn document_is_pretty_printed_object() {
    let mut store = fresh_store();
    store.set("b", serde_json::Value::from(2));
    store.set("a", serde_json::Value::from(true));
    let body = String::from_utf8(store.document().unwrap()).unwrap();
    assert_eq!(body, "{\n  \"a\": true,\n  \"b\": 2\n}");
}

#[test]
fn opens_what_a_file_holds() {
    let text = "{\"count\": 3, \"names\": [\"a\", \"b\"]}".to_string();
    let store = Store::open(PathBuf::from("store.json"), StoreRead::Contents(text)).unwrap();
    assert_eq!(store.get("count"), Some(serde_json::Value::from(3)));
    assert_eq!(
        store.get("names"),
        Some(serde_json::Value::from(vec!["a", "b"]))
    );
}

#[test]
fn read_gives_the_last_write() {
    let mut store = fresh_store();
    store.set("k", serde_json::Value::from(1));
    store.set("other", serde_json::Value::from(9));
    store.set("k", serde_json::Value::from(2));
    assert_eq!(store.get("k"), Some(serde_json::Value::from(2)));
    store.delete("k");
    assert_eq!(store.get("k"), None);
    store.set("k", serde_json::Value::from(3));
    store.delete("other");
    assert_eq!(store.get("k"), Some(serde_json::Value::from(3)));
    assert_eq!(store.get("other"), None);
}

#[test]
fn corrupt_file_message_is_exact() {
    let read = StoreRead::Contents("not json".to_string());
    let parse_error = serde_json::from_str::<serde_json::Map<String, serde_json::Value>>("not json")
        .unwrap_err()
        .to_string();
    match Store::open(PathBuf::from("a/store.json"), read) {
        Err(NotebotError::Store(message)) => assert_eq!(
            message,
            format!("corrupt store file a/store.json: {parse_error}")
        ),
        Ok(_) => panic!("opened a corrupt store"),
    }
}
