use kv::ops;
use kv::{complete_keys, delete, file_path, from_object, get, list, load_json, Failure, KvError, Store};

fn read(text: &str) -> Result<String, KvError> {
    Ok(text.to_string())
}

fn missing_file() -> Result<String, KvError> {
    Err(KvError::new(Failure::Io, "No such file or directory (os error 2)".to_string()))
}

fn saved(store: &Store) -> Result<String, KvError> {
    Ok(store.save_json())
}

fn set_text(text: Result<String, KvError>, key: &str, value: &str, force: bool) -> Result<String, KvError> {
    ops::set(load_json(text), key, value, force).map(|(store, _)| store.save_json())
}

#[test]
fn path_in_data_home() {
    assert_eq!(file_path("/home/u/.local/share", true, "/home/u"), "/home/u/.local/share/kv.json");
}

#[test]
fn path_in_home_when_data_home_missing() {
    assert_eq!(file_path("/home/u/.local/share", false, "/home/u"), "/home/u/.kv.json");
}

#[test]
fn path_with_trailing_slash() {
    assert_eq!(file_path("/data/", true, "/home/u"), "/data/kv.json");
    assert_eq!(file_path("/data", false, "/"), "/.kv.json");
}

#[test]
fn round_trip_from_empty() {
    let text = set_text(missing_file(), "k", "v", false).unwrap();
    assert_eq!(get(load_json(Ok(text)), "k").unwrap(), "v");
}

#[test]
fn set_confirmation_message() {
    let (_, msg) = ops::set(load_json(missing_file()), "name", "ferris", false).unwrap();
    assert_eq!(msg, "Key \"name\" set to value \"ferris\".");
}

#[test]
fn forced_overwrite() {
    let text = set_text(read("{}"), "k", "v1", false).unwrap();
    let text = set_text(Ok(text), "k", "v2", true).unwrap();
    assert_eq!(get(load_json(Ok(text)), "k").unwrap(), "v2");
}

#[test]
fn unforced_overwrite_refused() {
    let text = set_text(read("{}"), "k", "v1", false).unwrap();
    let err = ops::set(load_json(Ok(text.clone())), "k", "v2", false).err().unwrap();
    assert_eq!(err.kind, Failure::AlreadyExists);
    assert_eq!(err.to_string(), "Key \"k\" already present. (Use --force to overwrite.)");
    assert_eq!(get(load_json(Ok(text)), "k").unwrap(), "v1");
}

#[test]
fn get_missing_key() {
    let err = get(load_json(read("{}")), "missing").unwrap_err();
    assert_eq!(err.kind, Failure::NotFound);
    assert_eq!(err.to_string(), "Key \"missing\" not found.");
    let err = get(load_json(read("{\"other\":\"x\"}")), "missing").unwrap_err();
    assert_eq!(err.kind, Failure::NotFound);
}

#[test]
fn delete_missing_key() {
    let err = delete(load_json(read("{\"other\":\"x\"}")), "missing").err().unwrap();
    assert_eq!(err.kind, Failure::NotFound);
    assert_eq!(err.to_string(), "Key \"missing\" not found.");
}

#[test]
fn get_without_file_reports_io() {
    let err = get(load_json(missing_file()), "k").unwrap_err();
    assert_eq!(err.kind, Failure::Io);
    assert_eq!(err.to_string(), "No such file or directory (os error 2)");
}

#[test]
fn delete_removes_key() {
    let text = set_text(missing_file(), "k", "v", false).unwrap();
    let (store, msg) = delete(load_json(Ok(text)), "k").unwrap();
    assert_eq!(msg, "Deleted key \"k\".");
    let err = get(load_json(saved(&store)), "k").unwrap_err();
    assert_eq!(err.kind, Failure::NotFound);
}

#[test]
fn delete_keeps_other_keys() {
    let (store, _) = delete(load_json(read("{\"a\":\"1\",\"b\":\"2\"}")), "a").unwrap();
    assert_eq!(get(load_json(saved(&store)), "b").unwrap(), "2");
}

#[test]
fn list_empty_store() {
    assert_eq!(list(load_json(read("{}"))).unwrap(), "No keys found.");
}

#[test]
fn list_without_file() {
    assert_eq!(list(load_json(missing_file())).unwrap(), "No keys found.");
}

#[test]
fn list_corrupt_file() {
    assert_eq!(list(load_json(read("{not json"))).unwrap(), "No keys found.");
}

#[test]
fn list_two_entries() {
    let text = set_text(missing_file(), "a", "1", false).unwrap();
    let text = set_text(Ok(text), "b", "2", false).unwrap();
    let out = list(load_json(Ok(text))).unwrap();
    let lines: Vec<&str> = out.split('\n').collect();
    assert_eq!(lines.len(), 2);
    assert!(lines.contains(&"a -> 1"));
    assert!(lines.contains(&"b -> 2"));
}

#[test]
fn list_rejects_non_string_value() {
    let err = list(load_json(read("{\"a\":\"1\",\"k\":42}"))).unwrap_err();
    assert_eq!(err.kind, Failure::InvalidData);
    assert_eq!(err.to_string(), "Value of key \"k\" is not a string.");
}

#[test]
fn set_over_corrupt_file() {
    let corrupt = "{\"a\": \"1\",";
    let text = set_text(read(corrupt), "k", "v", false).unwrap();
    assert_eq!(text, "{\"k\":\"v\"}");
    assert_eq!(get(load_json(Ok(text)), "k").unwrap(), "v");
}

#[test]
fn get_and_delete_on_corrupt_file() {
    let corrupt = "this is not json";
    assert_eq!(get(load_json(read(corrupt)), "k").unwrap_err().kind, Failure::Parse);
    assert_eq!(delete(load_json(read(corrupt)), "k").err().unwrap().kind, Failure::Parse);
}

#[test]
fn get_non_string_value() {
    let err = get(load_json(read("{\"k\": 42}")), "k").unwrap_err();
    assert_eq!(err.kind, Failure::InvalidData);
    assert_eq!(err.to_string(), "Value of key \"k\" is not a string.");
}

#[test]
fn load_non_object() {
    let err = load_json(read("[1, 2]")).err().unwrap();
    assert_eq!(err.kind, Failure::InvalidData);
    assert_eq!(err.to_string(), "Data in file was not an object.");
    let err = from_object(None).err().unwrap();
    assert_eq!(err.to_string(), "Data in file was not an object.");
}

#[test]
fn set_keeps_non_string_values() {
    let text = set_text(read("{\"n\":42}"), "k", "v", false).unwrap();
    assert_eq!(text, "{\"k\":\"v\",\"n\":42}");
}

#[test]
fn complete_keys_lines() {
    let out = complete_keys(load_json(read("{\"b\":\"2\",\"a\":\"1\"}"))).unwrap();
    assert_eq!(out, "a:1\nb:2");
    assert_eq!(complete_keys(load_json(read("{}"))).unwrap(), "");
}

#[test]
fn complete_keys_propagates_load_error() {
    assert_eq!(complete_keys(load_json(missing_file())).unwrap_err().kind, Failure::Io);
    assert_eq!(complete_keys(load_json(read("nope"))).unwrap_err().kind, Failure::Parse);
}

#[test]
fn from_object_holds_map() {
    let mut m = serde_json::Map::new();
    m.insert("x".to_string(), serde_json::Value::String("y".to_string()));
    let store = from_object(Some(m)).unwrap();
    assert_eq!(get(Ok(store), "x").unwrap(), "y");
}

#[test]
fn new_store_is_empty() {
    assert_eq!(list(Ok(Store::new())).unwrap(), "No keys found.");
    assert_eq!(Store::new().save_json(), "{}");
}

#[test]
fn complete_keys_rejects_non_string_value() {
    let err = complete_keys(load_json(read("{\"k\": 42}"))).unwrap_err();
    assert_eq!(err.kind, Failure::InvalidData);
    assert_eq!(err.to_string(), "Value of key \"k\" is not a string.");
}

#[test]
fn delete_keeps_non_string_values() {
    let (store, _) = delete(load_json(read("{\"a\":\"1\",\"n\":[1,null]}")), "a").unwrap();
    assert_eq!(store.save_json(), "{\"n\":[1,null]}");
}
