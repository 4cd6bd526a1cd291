use mocker_core::error::ErrorKind;
use mocker_core::status::Status;
use mocker_core::store::{Record, Store};
use mocker_core::value::Value;

fn record(id: Value, name: &str) -> Record {
    vec![("id".to_string(), id), ("name".to_string(), Value::String(name.to_string()))]
}

#[test]
fn find() {
    let mut store = Store::json("/tmp/test.json", "id");
    store.create(record(Value::Integer(42), "Joe Garcia")).unwrap();
    store.create(record(Value::Integer(84), "Daffy duck")).unwrap();
    let found = store.find(&Value::Integer(84));
    assert_eq!(found, Some(&store.items()[1]));
    println!("{:#?}", store);
}

#[test]
fn create_then_find_then_conflict() {
    let mut store = Store::json("/tmp/people.json", "id");
    assert_eq!(store.create(record(Value::Unsigned(7), "Ann")).unwrap(), 0);
    assert_eq!(store.find(&Value::Unsigned(7)), Some(&record(Value::Unsigned(7), "Ann")));
    // loosely equal: same rendering "7"
    assert_eq!(store.find(&Value::String("7".to_string())), Some(&record(Value::Unsigned(7), "Ann")));
    let err = store.create(record(Value::String("7".to_string()), "Bob")).unwrap_err();
    assert_eq!(err.kind(), ErrorKind::Api(Status::Conflict));
    assert_eq!(store.items().len(), 1);
}

#[test]
fn create_without_identifier_is_a_bad_request() {
    let mut store = Store::json("/tmp/people.json", "id");
    let err = store.create(vec![("name".to_string(), Value::Null)]).unwrap_err();
    assert_eq!(err.kind(), ErrorKind::Api(Status::BadRequest));
    assert!(store.items().is_empty());
}

#[test]
fn identifier_field_matches_without_case() {
    let store = Store::json("/tmp/people.json", "ID");
    let rec = record(Value::Integer(-5), "Neg");
    let (k, v) = store.id_field(&rec).unwrap();
    assert_eq!(k, "id");
    assert_eq!(v, &Value::Integer(-5));
    assert!(store.id_field(&vec![("name".to_string(), Value::Null)]).is_none());
}

#[test]
fn remove_compares_kind_and_content() {
    let mut store = Store::json("/tmp/people.json", "id");
    store.create(record(Value::Integer(1), "One")).unwrap();
    store.create(record(Value::Integer(2), "Two")).unwrap();
    assert!(store.remove(&Value::String("1".to_string())).is_none());
    let gone = store.remove(&Value::Integer(1)).unwrap();
    assert_eq!(gone, record(Value::Integer(1), "One"));
    assert_eq!(store.items().len(), 1);
    assert!(!store.contains(&Value::Integer(1)));
    assert!(store.contains(&Value::Integer(2)));
}

#[test]
fn value_renderings() {
    assert_eq!(Value::Null.text(), "null");
    assert_eq!(Value::Bool(false).text(), "false");
    assert_eq!(Value::Integer(i128::MIN).text(), "-170141183460469231731687303715884105728");
    assert_eq!(Value::Integer(0).text(), "0");
    assert_eq!(Value::Unsigned(u128::MAX).text(), "340282366920938463463374607431768211455");
    assert_eq!(Value::Float("1.5".to_string()).text(), "1.5");
    assert!(Value::Integer(42).loose_eq(&Value::String("42".to_string())));
    assert!(!Value::Integer(42).loose_eq(&Value::Unsigned(43)));
    assert!(!Value::Integer(42).same_value(&Value::Unsigned(42)));
    assert_eq!(Value::default(), Value::Null);
}

#[test]
fn number_classification_and_narrowing() {
    assert_eq!(Value::from_json_number(Some(5), Some(5), "5".to_string()), Value::Unsigned(5));
    assert_eq!(Value::from_json_number(None, Some(-5), "-5".to_string()), Value::Integer(-5));
    assert_eq!(Value::from_json_number(None, None, "2.5".to_string()), Value::Float("2.5".to_string()));
    assert_eq!(Value::Integer(-1).low_i64(), Some(-1));
    assert_eq!(Value::Integer(-1).low_u64(), Some(u64::MAX));
    assert_eq!(Value::Unsigned(u64::MAX as u128 + 3).low_u64(), Some(2));
    assert_eq!(Value::Unsigned(1u128 << 63).low_i64(), Some(i64::MIN));
    assert_eq!(Value::Null.low_i64(), None);
    assert_eq!(Value::Null.check_toml().unwrap_err().kind(), ErrorKind::Parse);
    assert!(Value::Bool(true).check_toml().is_ok());
}

#[test]
fn records_with_repeated_field_names_are_detected() {
    let ok = record(Value::Integer(1), "One");
    let bad = vec![("id".to_string(), Value::Null), ("id".to_string(), Value::Bool(true))];
    assert!(mocker_core::store::has_unique_keys(&ok));
    assert!(!mocker_core::store::has_unique_keys(&bad));
    assert!(mocker_core::store::all_have_unique_keys(&vec![ok.clone()]));
    assert!(!mocker_core::store::all_have_unique_keys(&vec![ok, bad]));
}

#[test]
fn json_text_of_values() {
    assert_eq!(Value::String("x\ty".to_string()).json_text(), "\"x\\ty\"");
    assert_eq!(Value::Integer(-3).json_text(), "-3");
    assert_eq!(Value::Null.json_text(), "null");
    assert_eq!(Value::Bool(true).json_text(), "true");
    assert_eq!(Value::Array("[1,2]".to_string()).json_text(), "[1,2]");
}
