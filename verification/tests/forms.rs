use crust::forms::finger_table_form;
use crust::forms::get_key_from_body;
use crust::forms::notify_form;
use crust::forms::predecessor_form;
use crust::forms::read_finger_offer;
use crust::forms::read_last_field;
use crust::forms::read_needed_field;
use crust::forms::read_only_field;
use crust::forms::successor_form;
use crust::forms::FormError;

fn body(text: &str) -> Vec<u8> {
    text.as_bytes().to_vec()
}

fn pairs(list: &[(&str, &str)]) -> Vec<(String, String)> {
    list.iter().map(|(k, v)| (k.to_string(), v.to_string())).collect()
}

fn unexpected(result: Result<String, FormError>) -> String {
    match result {
        Err(FormError::UnexpectedField(name)) => name,
        other => panic!("expected an unexpected field, got {:?}", other),
    }
}

#[test]
fn successor_form_takes_the_field_ip() {
    assert_eq!(successor_form(&body("ip=10.0.0.2")).unwrap(), "10.0.0.2");
    assert_eq!(successor_form(&body("ip=10.0.0.2&ip=10.0.0.3")).unwrap(), "10.0.0.3");
    assert_eq!(successor_form(&body("")).unwrap(), "");
}

#[test]
fn successor_form_refuses_other_fields() {
    assert_eq!(unexpected(successor_form(&body("ip=10.0.0.2&port=80"))), "port");
    assert_eq!(unexpected(successor_form(&body("n=1&m=2&ip=3"))), "n");
    assert_eq!(unexpected(successor_form(&body("IP=10.0.0.2"))), "IP");
}

#[test]
fn form_values_are_percent_decoded() {
    assert_eq!(get_key_from_body(&body("key=a%20b")).unwrap(), "a b");
    assert_eq!(get_key_from_body(&body("key=a+b")).unwrap(), "a b");
    assert_eq!(get_key_from_body(&body("key=%23first%3D1")).unwrap(), "#first=1");
    assert_eq!(get_key_from_body(&body("k%65y=x")).unwrap(), "x");
    assert_eq!(successor_form(&body("ip=%3A%3A1")).unwrap(), "::1");
}

#[test]
fn key_form_takes_the_field_key() {
    assert_eq!(get_key_from_body(&body("key=hello")).unwrap(), "hello");
    assert_eq!(get_key_from_body(&body("key=")).unwrap(), "");
    assert_eq!(get_key_from_body(&body("")).unwrap(), "");
    assert_eq!(get_key_from_body(&body("&&key=a&&")).unwrap(), "a");
    assert_eq!(get_key_from_body(&body("key=a=b")).unwrap(), "a=b");
    assert_eq!(unexpected(get_key_from_body(&body("key=a&value=b"))), "value");
    assert_eq!(unexpected(get_key_from_body(&body("hello"))), "hello");
}

#[test]
fn predecessor_form_needs_the_field_ip() {
    assert_eq!(predecessor_form(&body("ip=10.0.0.2")).unwrap(), "10.0.0.2");
    assert_eq!(predecessor_form(&body("x=1&ip=10.0.0.2&y=2")).unwrap(), "10.0.0.2");
    assert_eq!(predecessor_form(&body("ip=a&ip=b")).unwrap(), "b");
    assert!(matches!(predecessor_form(&body("")), Err(FormError::MissingField)));
    assert!(matches!(predecessor_form(&body("ip=")), Err(FormError::MissingField)));
    assert!(matches!(predecessor_form(&body("n=10.0.0.2")), Err(FormError::MissingField)));
    assert!(matches!(predecessor_form(&body("ip=a&ip=")), Err(FormError::MissingField)));
}

#[test]
fn notify_form_needs_the_field_n() {
    assert_eq!(notify_form(&body("n=10.0.0.2")).unwrap(), "10.0.0.2");
    assert_eq!(notify_form(&body("ip=1&n=10.0.0.2")).unwrap(), "10.0.0.2");
    assert!(matches!(notify_form(&body("ip=10.0.0.2")), Err(FormError::MissingField)));
    assert!(matches!(notify_form(&body("")), Err(FormError::MissingField)));
}

#[test]
fn finger_table_form_takes_address_and_index() {
    assert_eq!(finger_table_form(&body("n=10.0.0.2&i=3")).unwrap(), ("10.0.0.2".to_string(), 3));
    assert_eq!(finger_table_form(&body("i=0&n=10.0.0.2")).unwrap(), ("10.0.0.2".to_string(), 0));
    assert_eq!(finger_table_form(&body("i=5")).unwrap(), ("".to_string(), 5));
    assert_eq!(finger_table_form(&body("n=a&i=1&n=b&i=2")).unwrap(), ("b".to_string(), 2));
}

#[test]
fn finger_table_form_refuses_bad_indices_and_other_fields() {
    assert!(matches!(finger_table_form(&body("n=10.0.0.2&i=6")), Err(FormError::BadIndex)));
    assert!(matches!(finger_table_form(&body("n=10.0.0.2&i=x")), Err(FormError::BadIndex)));
    assert!(matches!(finger_table_form(&body("n=10.0.0.2")), Err(FormError::BadIndex)));
    assert!(matches!(finger_table_form(&body("n=10.0.0.2&i=-1")), Err(FormError::BadIndex)));
    assert!(matches!(finger_table_form(&body("")), Err(FormError::BadIndex)));
    match finger_table_form(&body("n=10.0.0.2&k=1&i=9")) {
        Err(FormError::UnexpectedField(name)) => assert_eq!(name, "k"),
        other => panic!("expected an unexpected field, got {:?}", other),
    }
}

#[test]
fn fields_are_read_from_pairs() {
    let form = pairs(&[("a", "1"), ("b", "2"), ("a", "3")]);
    assert_eq!(read_last_field(&form, "a"), "3");
    assert_eq!(read_last_field(&form, "b"), "2");
    assert_eq!(read_last_field(&form, "c"), "");
    assert_eq!(read_needed_field(&form, "b").unwrap(), "2");
    assert!(matches!(read_needed_field(&form, "c"), Err(FormError::MissingField)));
    assert_eq!(unexpected(read_only_field(&form, "a")), "b");
    assert_eq!(read_only_field(&pairs(&[("a", "1"), ("a", "3")]), "a").unwrap(), "3");
    assert_eq!(read_only_field(&pairs(&[]), "a").unwrap(), "");
    assert_eq!(read_finger_offer(&pairs(&[("n", "x"), ("i", "+4")])).unwrap(), ("x".to_string(), 4));
}
