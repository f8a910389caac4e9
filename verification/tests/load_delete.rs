use chat_store::error::StoreError;
use chat_store::store::{delete_chat, load_chat};
use serde_json::{Number, Value};

#[test]
fn load_of_a_missing_file_is_not_found() {
    let err = load_chat(None).unwrap_err();
    assert_eq!(err, StoreError::NotFound);
    assert_eq!(err.message(), "Chat not found");
}

#[test]
fn load_returns_the_document_as_it_stands() {
    let doc = load_chat(Some("{\"id\": \"other\", \"n\": [1, 2.5, -3]}".to_string())).unwrap();
    assert_eq!(doc["id"], Value::String("other".to_string()));
    assert_eq!(doc["n"][0], Value::Number(Number::from(1u64)));
    assert_eq!(doc["n"][1], Value::Number(Number::from_f64(2.5).unwrap()));
    assert_eq!(doc["n"][2], Value::Number(Number::from(-3i64)));
    assert!(doc.get("timestamp").is_none());
}

#[test]
fn load_returns_what_is_no_object_too() {
    assert_eq!(load_chat(Some("17".to_string())).unwrap(), Value::Number(Number::from(17u64)));
    assert_eq!(load_chat(Some(" null ".to_string())).unwrap(), Value::Null);
    assert_eq!(
        load_chat(Some("[\"a\"]".to_string())).unwrap(),
        Value::Array(vec![Value::String("a".to_string())])
    );
}

#[test]
fn load_of_a_corrupt_file_carries_the_parser_message() {
    let text = "{\"id\": ";
    let expected = serde_json::from_str::<Value>(text).unwrap_err().to_string();
    let err = load_chat(Some(text.to_string())).unwrap_err();
    assert_eq!(err, StoreError::ParseFailure(expected.clone()));
    assert_eq!(err.message(), expected);
    assert!(!expected.is_empty());

    let err = load_chat(Some(String::new())).unwrap_err();
    assert!(matches!(err, StoreError::ParseFailure(_)));
}

#[test]
fn delete_of_a_missing_file_is_an_io_failure() {
    let message = "No such file or directory (os error 2)".to_string();
    let err = delete_chat(Err(message.clone())).unwrap_err();
    assert_eq!(err, StoreError::IoFailure(message.clone()));
    assert_eq!(err.message(), message);
}

#[test]
fn delete_that_went_through_is_done() {
    assert_eq!(delete_chat(Ok(())), Ok(()));
}

#[test]
fn each_error_has_its_message() {
    assert_eq!(StoreError::InvalidFormat.message(), "Invalid session format");
    assert_eq!(StoreError::NotFound.message(), "Chat not found");
    assert_eq!(StoreError::IoFailure("denied".to_string()).message(), "denied");
    assert_eq!(StoreError::ParseFailure("EOF".to_string()).message(), "EOF");
}
